//! Saved accounts, their settings and the Riot session files that belong to them.

use vstd::prelude::*;

use crate::text::{copy_of, owned, trim, trimmed, view_of};

pub mod auth;
pub mod files;
pub mod session;

verus! {

/// A saved Riot account. `id` and `vault_id` are UUIDs as 128-bit numbers.
pub struct Account {
    pub id: u128,
    /// Legacy display name, kept so older builds still show something. New accounts store
    /// their Riot ID here when they are first saved.
    pub name: String,
    /// Canonical Riot account identity. Duplicate detection and session verification always
    /// use this and never Riot ID text, which can change.
    pub puuid: Option<String>,
    pub game_name: Option<String>,
    pub tag_line: Option<String>,
    /// League platform id from platform configuration, e.g. "EUW1".
    pub platform: Option<String>,
    /// Friendly region label derived from the platform id, e.g. "EUW". Never inferred from the
    /// Riot ID tagline.
    pub region: Option<String>,
    pub profile_icon_id: Option<i64>,
    /// Optional user-defined label; independent of Riot identity.
    pub nickname: Option<String>,
    /// The saved session that belongs to the account.
    pub vault_id: u128,
}

/// An account as a mathematical value.
pub struct AccountModel {
    pub id: u128,
    pub name: Seq<char>,
    pub puuid: Option<Seq<char>>,
    pub game_name: Option<Seq<char>>,
    pub tag_line: Option<Seq<char>>,
    pub platform: Option<Seq<char>>,
    pub region: Option<Seq<char>>,
    pub profile_icon_id: Option<i64>,
    pub nickname: Option<Seq<char>>,
    pub vault_id: u128,
}

impl View for Account {
    type V = AccountModel;

    open spec fn view(&self) -> AccountModel {
        AccountModel {
            id: self.id,
            name: self.name@,
            puuid: owned(self.puuid),
            game_name: owned(self.game_name),
            tag_line: owned(self.tag_line),
            platform: owned(self.platform),
            region: owned(self.region),
            profile_icon_id: self.profile_icon_id,
            nickname: owned(self.nickname),
            vault_id: self.vault_id,
        }
    }
}

/// The trimmed text of an optional field that is not blank.
pub open spec fn filled(field: Option<Seq<char>>) -> Option<Seq<char>> {
    match field {
        Some(text) => if trimmed(text).len() > 0 {
            Some(trimmed(text))
        } else {
            None
        },
        None => None,
    }
}

fn filled_of<'a>(field: &'a Option<String>) -> (text: Option<&'a str>)
    ensures
        view_of(text) == filled(owned(*field)),
{
    match field {
        Some(raw) => {
            let text = trim(raw.as_str());
            if text.is_empty() {
                None
            } else {
                Some(text)
            }
        },
        None => None,
    }
}

/// A Riot ID as it is displayed.
pub open spec fn riot_id_text(game: Seq<char>, tag: Seq<char>) -> Seq<char> {
    game + "#"@ + tag
}

/// A Riot ID as it is displayed.
pub fn format_riot_id(game: &str, tag: &str) -> (text: String)
    ensures
        text@ == riot_id_text(game@, tag@),
{
    let mut text = game.to_owned();
    text.append("#");
    text.append(tag);
    text
}

impl AccountModel {
    /// The Riot ID, once both of its halves are known.
    pub open spec fn riot_id(self) -> Option<Seq<char>> {
        match (filled(self.game_name), filled(self.tag_line)) {
            (Some(game), Some(tag)) => Some(riot_id_text(game, tag)),
            _ => None,
        }
    }

    /// The nickname where there is one, else the Riot ID, else the legacy name.
    pub open spec fn display_name(self) -> Seq<char> {
        match filled(self.nickname) {
            Some(nickname) => nickname,
            None => match self.riot_id() {
                Some(riot_id) => riot_id,
                None => trimmed(self.name),
            },
        }
    }
}

impl Account {
    /// Display identity: "GameName#TagLine" as last reported by the client.
    pub fn riot_id(&self) -> (text: Option<String>)
        ensures
            owned(text) == self@.riot_id(),
    {
        match (filled_of(&self.game_name), filled_of(&self.tag_line)) {
            (Some(game), Some(tag)) => Some(format_riot_id(game, tag)),
            _ => None,
        }
    }

    /// Nickname first, then Riot ID, then the legacy name.
    pub fn display_name(&self) -> (text: String)
        ensures
            text@ == self@.display_name(),
    {
        if let Some(nickname) = filled_of(&self.nickname) {
            return nickname.to_owned();
        }
        if let Some(riot_id) = self.riot_id() {
            return riot_id;
        }
        trim(self.name.as_str()).to_owned()
    }
}

impl Clone for Account {
    fn clone(&self) -> (copy: Self)
        ensures
            copy == *self,
    {
        Account {
            id: self.id,
            name: self.name.clone(),
            puuid: copy_of(&self.puuid),
            game_name: copy_of(&self.game_name),
            tag_line: copy_of(&self.tag_line),
            platform: copy_of(&self.platform),
            region: copy_of(&self.region),
            profile_icon_id: self.profile_icon_id,
            nickname: copy_of(&self.nickname),
            vault_id: self.vault_id,
        }
    }
}

/// Everything that Swapper keeps between runs, but for the sessions themselves.
pub struct Config {
    pub accounts: Vec<Account>,
    pub active_id: Option<u128>,
    pub use_deceive: bool,
    pub riot_exe: Option<String>,
    pub deceive_exe: Option<String>,
    pub remote_enabled: bool,
}

/// The settings as a mathematical value.
pub struct ConfigModel {
    pub accounts: Seq<AccountModel>,
    pub active_id: Option<u128>,
    pub use_deceive: bool,
    pub riot_exe: Option<Seq<char>>,
    pub deceive_exe: Option<Seq<char>>,
    pub remote_enabled: bool,
}

/// The accounts as mathematical values.
pub open spec fn models(accounts: Seq<Account>) -> Seq<AccountModel> {
    accounts.map_values(|a: Account| a@)
}

impl View for Config {
    type V = ConfigModel;

    open spec fn view(&self) -> ConfigModel {
        ConfigModel {
            accounts: models(self.accounts@),
            active_id: self.active_id,
            use_deceive: self.use_deceive,
            riot_exe: owned(self.riot_exe),
            deceive_exe: owned(self.deceive_exe),
            remote_enabled: self.remote_enabled,
        }
    }
}

impl Default for Config {
    fn default() -> (config: Self)
        ensures
            config@ == (ConfigModel {
                accounts: Seq::empty(),
                active_id: None,
                use_deceive: false,
                riot_exe: None,
                deceive_exe: None,
                remote_enabled: false,
            }),
    {
        let config = Config {
            accounts: Vec::new(),
            active_id: None,
            use_deceive: false,
            riot_exe: None,
            deceive_exe: None,
            remote_enabled: false,
        };
        assert(config@.accounts =~= Seq::empty());
        config
    }
}

/// Where the account `id` stands among `accounts`, from `from` on; past the end where it does
/// not occur.
pub open spec fn index_from(accounts: Seq<AccountModel>, id: u128, from: int) -> int
    decreases accounts.len() - from,
{
    if from >= accounts.len() || accounts[from].id == id {
        from
    } else {
        index_from(accounts, id, from + 1)
    }
}

impl ConfigModel {
    /// Where the first account `id` stands; the number of accounts where there is none.
    pub open spec fn index(self, id: u128) -> int {
        index_from(self.accounts, id, 0)
    }

    /// Whether an account `id` is saved.
    pub open spec fn has(self, id: u128) -> bool {
        self.index(id) < self.accounts.len()
    }

    /// The first account `id`.
    pub open spec fn account(self, id: u128) -> AccountModel {
        self.accounts[self.index(id)]
    }
}

proof fn lemma_index_from(accounts: Seq<AccountModel>, id: u128, from: int)
    requires
        0 <= from <= accounts.len(),
    ensures
        from <= index_from(accounts, id, from) <= accounts.len(),
        index_from(accounts, id, from) < accounts.len() ==> accounts[index_from(
            accounts,
            id,
            from,
        )].id == id,
        forall|k: int| from <= k < index_from(accounts, id, from) ==> accounts[k].id != id,
    decreases accounts.len() - from,
{
    if from >= accounts.len() || accounts[from].id == id {
    } else {
        lemma_index_from(accounts, id, from + 1);
    }
}

impl ConfigModel {
    /// `index` is the first place where the account stands.
    pub proof fn lemma_index(self, id: u128)
        ensures
            0 <= self.index(id) <= self.accounts.len(),
            self.has(id) ==> self.account(id).id == id,
            forall|k: int| 0 <= k < self.index(id) ==> self.accounts[k].id != id,
    {
        lemma_index_from(self.accounts, id, 0);
    }
}

impl Config {
    /// Where the first account `id` stands.
    pub fn position(&self, id: u128) -> (at: Option<usize>)
        ensures
            match at {
                Some(i) => self@.has(id) && i == self@.index(id) && i < self.accounts@.len(),
                None => !self@.has(id),
            },
    {
        let n: usize = self.accounts.len();
        let mut i: usize = 0;
        while i < n
            invariant
                n == self.accounts@.len(),
                i <= n,
                self@.index(id) == index_from(self@.accounts, id, i as int),
            decreases n - i,
        {
            assert(self@.accounts[i as int] == self.accounts@[i as int]@);
            if self.accounts[i].id == id {
                return Some(i);
            }
            i = i + 1;
        }
        None
    }
}

/// An account is shown by the nickname that the user gave it, without one by its Riot ID, and
/// without either by its old name; each without spaces around, and only where it is not blank.
pub proof fn nickname_is_shown_first(account: AccountModel)
    ensures
        account.nickname matches Some(nickname) ==> (trimmed(nickname).len() > 0
            ==> account.display_name() == trimmed(nickname)),
        !(account.nickname matches Some(nickname) && trimmed(nickname).len() > 0) ==> {
            &&& match (account.game_name, account.tag_line) {
                (Some(game), Some(tag)) => trimmed(game).len() > 0 && trimmed(tag).len() > 0
                    ==> account.display_name() == trimmed(game) + "#"@ + trimmed(tag)
                    && account.riot_id() == Some(account.display_name()),
                _ => account.display_name() == trimmed(account.name) && account.riot_id() is None,
            }
        },
        account.riot_id() is None ==> (account.nickname is None ==> account.display_name()
            == trimmed(account.name)),
{
}

} // verus!
