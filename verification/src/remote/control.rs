//! What the remote page shows of a game and what it may do there.
//!
//! [`SnapshotRun`] and [`ActionRun`] decide what to ask the League client next; the caller asks
//! and reports the answer.

use vstd::prelude::*;

use super::catalog::{
    catalog_entries, champion_models, by_name, entries_of, fallback_ban_candidates, ids_of,
    primary, is_primary, positions_models, primary_ids, retain_primary, summary_models, Champion,
    ChampionSummary, RecommendedPositions, SummaryModel,
};
use crate::number::{decimal, signed_decimal, signed_decimal_of};
use crate::text::{owned, same};
use crate::windows::process::lemma_filter_push;

verus! {

pub const PHASE_PATH: &'static str = "/lol-gameflow/v1/gameflow-phase";

pub const SEARCH_PATH: &'static str = "/lol-matchmaking/v1/search";

pub const READY_CHECK_PATH: &'static str = "/lol-matchmaking/v1/ready-check";

pub const SESSION_PATH: &'static str = "/lol-champ-select/v1/session";

pub const PICKABLE_PATH: &'static str = "/lol-champ-select/v1/pickable-champion-ids";

pub const BANNABLE_PATH: &'static str = "/lol-champ-select/v1/bannable-champion-ids";

pub const CHAMPIONS_PATH: &'static str = "/lol-game-data/assets/v1/champion-summary.json";

pub const POSITIONS_PATH: &'static str = "/lol-perks/v1/recommended-champion-positions";

/// What the remote page shows of a game.
#[derive(Debug, PartialEq, Eq)]
pub struct GameSnapshot {
    pub phase: String,
    pub queue_time_seconds: Option<u64>,
    pub ready_check: bool,
    pub champion_select: Option<ChampionSelectView>,
    pub message: Option<String>,
}

/// What the remote page shows of a champion select.
#[derive(Debug, PartialEq, Eq)]
pub struct ChampionSelectView {
    pub game_id: i64,
    pub action_kind: Option<String>,
    pub selected_champion_id: Option<i64>,
    pub prepick_champion_id: Option<i64>,
    pub can_complete: bool,
    pub can_prepick: bool,
    pub available_champion_ids: Vec<i64>,
}

/// What the remote page shows of a champion select, as a mathematical value.
#[verifier::ext_equal]
pub struct SelectModel {
    pub game_id: i64,
    pub action_kind: Option<Seq<char>>,
    pub selected_champion_id: Option<i64>,
    pub prepick_champion_id: Option<i64>,
    pub can_complete: bool,
    pub can_prepick: bool,
    pub available_champion_ids: Seq<i64>,
}

/// What the remote page shows of a game, as a mathematical value.
pub struct GameModel {
    pub phase: Seq<char>,
    pub queue_time_seconds: Option<u64>,
    pub ready_check: bool,
    pub champion_select: Option<SelectModel>,
    pub message: Option<Seq<char>>,
}

impl View for ChampionSelectView {
    type V = SelectModel;

    open spec fn view(&self) -> SelectModel {
        SelectModel {
            game_id: self.game_id,
            action_kind: owned(self.action_kind),
            selected_champion_id: self.selected_champion_id,
            prepick_champion_id: self.prepick_champion_id,
            can_complete: self.can_complete,
            can_prepick: self.can_prepick,
            available_champion_ids: self.available_champion_ids@,
        }
    }
}

impl View for GameSnapshot {
    type V = GameModel;

    open spec fn view(&self) -> GameModel {
        GameModel {
            phase: self.phase@,
            queue_time_seconds: self.queue_time_seconds,
            ready_check: self.ready_check,
            champion_select: match self.champion_select {
                Some(select) => Some(select@),
                None => None,
            },
            message: owned(self.message),
        }
    }
}

/// What is shown where the League client cannot be asked.
pub open spec fn unavailable_game(message: Seq<char>) -> GameModel {
    GameModel { message: Some(message), ..plain_game("Unavailable"@) }
}

/// What is shown of a phase that has no details.
pub open spec fn plain_game(phase: Seq<char>) -> GameModel {
    GameModel {
        phase,
        queue_time_seconds: None,
        ready_check: false,
        champion_select: None,
        message: None,
    }
}

impl GameSnapshot {
    /// What is shown where the League client cannot be asked.
    pub fn unavailable(message: &str) -> (snapshot: GameSnapshot)
        ensures
            snapshot@ == unavailable_game(message@),
    {
        GameSnapshot {
            phase: "Unavailable".to_owned(),
            queue_time_seconds: None,
            ready_check: false,
            champion_select: None,
            message: Some(message.to_owned()),
        }
    }

    fn plain(phase: String) -> (snapshot: GameSnapshot)
        ensures
            snapshot@ == plain_game(phase@),
    {
        GameSnapshot {
            phase,
            queue_time_seconds: None,
            ready_check: false,
            champion_select: None,
            message: None,
        }
    }

    fn with_message(phase: String, message: &str) -> (snapshot: GameSnapshot)
        ensures
            snapshot@ == (GameModel { message: Some(message@), ..plain_game(phase@) }),
    {
        GameSnapshot {
            phase,
            queue_time_seconds: None,
            ready_check: false,
            champion_select: None,
            message: Some(message.to_owned()),
        }
    }
}

/// A ready check.
pub struct ReadyCheck {
    pub state: String,
    pub player_response: String,
}

/// A ready check, as a mathematical value.
pub struct ReadyCheckModel {
    pub state: Seq<char>,
    pub player_response: Seq<char>,
}

impl View for ReadyCheck {
    type V = ReadyCheckModel;

    open spec fn view(&self) -> ReadyCheckModel {
        ReadyCheckModel { state: self.state@, player_response: self.player_response@ }
    }
}

/// Whether a ready check awaits the player's response.
pub open spec fn awaits_response(check: ReadyCheckModel) -> bool {
    check.state == "InProgress"@ && (check.player_response.len() == 0 || check.player_response
        == "None"@)
}

/// Whether a ready check awaits the player's response.
pub fn ready_check_available(check: &ReadyCheck) -> (available: bool)
    ensures
        available == awaits_response(check@),
{
    same(check.state.as_str(), "InProgress") && (check.player_response.as_str().is_empty() || same(
        check.player_response.as_str(),
        "None",
    ))
}

/// A search for a game: its state, and the whole seconds it has lasted where they are known.
pub struct MatchmakingSearch {
    pub search_state: String,
    pub seconds_in_queue: Option<u64>,
}

impl MatchmakingSearch {
    /// The seconds that a search that is still going on has lasted.
    pub open spec fn elapsed(self) -> Option<u64> {
        if self.search_state@ == "Searching"@ {
            self.seconds_in_queue
        } else {
            None
        }
    }

    /// The seconds that a search that is still going on has lasted.
    pub fn elapsed_seconds(&self) -> (seconds: Option<u64>)
        ensures
            seconds == self.elapsed(),
    {
        if same(self.search_state.as_str(), "Searching") {
            self.seconds_in_queue
        } else {
            None
        }
    }
}

/// A pick or a ban of one player.
pub struct ChampionAction {
    pub id: i64,
    pub actor_cell_id: i64,
    pub champion_id: i64,
    pub completed: bool,
    pub is_in_progress: bool,
    pub kind: String,
}

/// A pick or a ban of one player, as a mathematical value.
pub struct PickModel {
    pub id: i64,
    pub actor_cell_id: i64,
    pub champion_id: i64,
    pub completed: bool,
    pub is_in_progress: bool,
    pub kind: Seq<char>,
}

impl View for ChampionAction {
    type V = PickModel;

    open spec fn view(&self) -> PickModel {
        PickModel {
            id: self.id,
            actor_cell_id: self.actor_cell_id,
            champion_id: self.champion_id,
            completed: self.completed,
            is_in_progress: self.is_in_progress,
            kind: self.kind@,
        }
    }
}

/// The timer of a champion select.
pub struct ChampionTimer {
    pub phase: String,
}

/// A champion select: its turns, each with the actions that happen at the same time.
pub struct ChampionSession {
    pub game_id: i64,
    pub local_player_cell_id: i64,
    pub actions: Vec<Vec<ChampionAction>>,
    pub timer: ChampionTimer,
}

/// A champion select, as a mathematical value.
pub struct SessionModel {
    pub game_id: i64,
    pub local_player_cell_id: i64,
    pub turns: Seq<Seq<PickModel>>,
    pub phase: Seq<char>,
}

/// The actions of a turn as mathematical values.
pub open spec fn turn_model(turn: Seq<ChampionAction>) -> Seq<PickModel> {
    turn.map_values(|a: ChampionAction| a@)
}

/// The turns as mathematical values.
pub open spec fn turn_models(turns: Seq<Vec<ChampionAction>>) -> Seq<Seq<PickModel>> {
    turns.map_values(|t: Vec<ChampionAction>| turn_model(t@))
}

impl View for ChampionSession {
    type V = SessionModel;

    open spec fn view(&self) -> SessionModel {
        SessionModel {
            game_id: self.game_id,
            local_player_cell_id: self.local_player_cell_id,
            turns: turn_models(self.actions@),
            phase: self.timer.phase@,
        }
    }
}

/// What is looked for among the actions of a champion select.
#[derive(Clone, Copy, PartialEq, Eq)]
pub enum Wanted {
    /// A pick or a ban that the player is to make right now.
    InProgress,
    /// A pick or a ban of the player's that is open.
    Open,
    /// A pick of the player's that is open.
    OpenPick,
}

/// Whether an action is what is looked for by the player in the cell `cell`.
pub open spec fn is_wanted(action: PickModel, cell: i64, wanted: Wanted) -> bool {
    &&& action.actor_cell_id == cell
    &&& !action.completed
    &&& match wanted {
        Wanted::InProgress => (action.kind == "pick"@ || action.kind == "ban"@)
            && action.is_in_progress,
        Wanted::Open => action.kind == "pick"@ || action.kind == "ban"@,
        Wanted::OpenPick => action.kind == "pick"@,
    }
}

/// The first action of a turn that is looked for.
pub open spec fn first_in(turn: Seq<PickModel>, cell: i64, wanted: Wanted) -> Option<PickModel>
    decreases turn.len(),
{
    if turn.len() == 0 {
        None
    } else if is_wanted(turn[0], cell, wanted) {
        Some(turn[0])
    } else {
        first_in(turn.skip(1), cell, wanted)
    }
}

/// The first action of all turns that is looked for.
pub open spec fn first_of(turns: Seq<Seq<PickModel>>, cell: i64, wanted: Wanted) -> Option<PickModel>
    decreases turns.len(),
{
    if turns.len() == 0 {
        None
    } else {
        match first_in(turns[0], cell, wanted) {
            Some(action) => Some(action),
            None => first_of(turns.skip(1), cell, wanted),
        }
    }
}

/// Whether a turn is not over.
pub open spec fn is_open(turn: Seq<PickModel>) -> bool {
    exists|i: int| 0 <= i < turn.len() && !(#[trigger] turn[i]).completed
}

/// The first open action of the first turn that is not over.
pub open spec fn open_in_current_turn(turns: Seq<Seq<PickModel>>, cell: i64) -> Option<PickModel>
    decreases turns.len(),
{
    if turns.len() == 0 {
        None
    } else if is_open(turns[0]) {
        first_in(turns[0], cell, Wanted::Open)
    } else {
        open_in_current_turn(turns.skip(1), cell)
    }
}

impl SessionModel {
    /// The pick or ban that the player may make now: one that is in progress, or else an open
    /// one of the current turn.
    pub open spec fn current(self) -> Option<PickModel> {
        if self.phase != "BAN_PICK"@ {
            None
        } else {
            match first_of(self.turns, self.local_player_cell_id, Wanted::InProgress) {
                Some(action) => Some(action),
                None => open_in_current_turn(self.turns, self.local_player_cell_id),
            }
        }
    }

    /// The pick that the player may prepare.
    pub open spec fn prepick(self) -> Option<PickModel> {
        first_of(self.turns, self.local_player_cell_id, Wanted::OpenPick)
    }

    /// Whether a champion was banned.
    pub open spec fn is_banned(self, champion_id: i64) -> bool {
        exists|t: int, i: int|
            0 <= t < self.turns.len() && 0 <= i < self.turns[t].len() && bans(
                #[trigger] self.turns[t][i],
                champion_id,
            )
    }

    /// Whether the player is to ban now.
    pub open spec fn is_banning(self) -> bool {
        self.current() matches Some(action) && action.kind == "ban"@
    }
}

/// Whether an action is a ban of a champion that was made.
pub open spec fn bans(action: PickModel, champion_id: i64) -> bool {
    action.kind == "ban"@ && action.completed && action.champion_id == champion_id
}

/// The view of an optional action.
pub open spec fn action_view(action: Option<&ChampionAction>) -> Option<PickModel> {
    match action {
        Some(action) => Some(action@),
        None => None,
    }
}

fn wanted_action(action: &ChampionAction, cell: i64, wanted: Wanted) -> (result: bool)
    ensures
        result == is_wanted(action@, cell, wanted),
{
    action.actor_cell_id == cell && !action.completed && match wanted {
        Wanted::InProgress => (same(action.kind.as_str(), "pick") || same(
            action.kind.as_str(),
            "ban",
        )) && action.is_in_progress,
        Wanted::Open => same(action.kind.as_str(), "pick") || same(action.kind.as_str(), "ban"),
        Wanted::OpenPick => same(action.kind.as_str(), "pick"),
    }
}

fn find_in<'a>(turn: &'a Vec<ChampionAction>, cell: i64, wanted: Wanted) -> (found: Option<
    &'a ChampionAction,
>)
    ensures
        action_view(found) == first_in(turn_model(turn@), cell, wanted),
{
    let ghost all = turn_model(turn@);
    let mut i: usize = 0;
    assert(all.skip(0) == all);
    while i < turn.len()
        invariant
            i <= turn@.len(),
            all == turn_model(turn@),
            first_in(all, cell, wanted) == first_in(all.skip(i as int), cell, wanted),
        decreases turn@.len() - i,
    {
        assert(all.skip(i as int)[0] == turn@[i as int]@);
        if wanted_action(&turn[i], cell, wanted) {
            return Some(&turn[i]);
        }
        assert(all.skip(i as int).skip(1) == all.skip(i + 1));
        i = i + 1;
    }
    assert(all.skip(i as int).len() == 0);
    None
}

fn find_of<'a>(turns: &'a Vec<Vec<ChampionAction>>, cell: i64, wanted: Wanted) -> (found: Option<
    &'a ChampionAction,
>)
    ensures
        action_view(found) == first_of(turn_models(turns@), cell, wanted),
{
    let ghost all = turn_models(turns@);
    let mut i: usize = 0;
    assert(all.skip(0) == all);
    while i < turns.len()
        invariant
            i <= turns@.len(),
            all == turn_models(turns@),
            first_of(all, cell, wanted) == first_of(all.skip(i as int), cell, wanted),
        decreases turns@.len() - i,
    {
        assert(all.skip(i as int)[0] == turn_model(turns@[i as int]@));
        if let Some(action) = find_in(&turns[i], cell, wanted) {
            return Some(action);
        }
        assert(all.skip(i as int).skip(1) == all.skip(i + 1));
        i = i + 1;
    }
    assert(all.skip(i as int).len() == 0);
    None
}

fn turn_is_open(turn: &Vec<ChampionAction>) -> (open_turn: bool)
    ensures
        open_turn == is_open(turn_model(turn@)),
{
    let ghost all = turn_model(turn@);
    let mut i: usize = 0;
    while i < turn.len()
        invariant
            i <= turn@.len(),
            all == turn_model(turn@),
            forall|k: int| 0 <= k < i ==> (#[trigger] all[k]).completed,
        decreases turn@.len() - i,
    {
        assert(all[i as int] == turn@[i as int]@);
        if !turn[i].completed {
            assert(!all[i as int].completed);
            return true;
        }
        i = i + 1;
    }
    false
}

impl ChampionSession {
    /// The pick or ban that the player may make now.
    pub fn current_action(&self) -> (action: Option<&ChampionAction>)
        ensures
            action_view(action) == self@.current(),
    {
        if !same(self.timer.phase.as_str(), "BAN_PICK") {
            return None;
        }
        if let Some(action) = find_of(
            &self.actions,
            self.local_player_cell_id,
            Wanted::InProgress,
        ) {
            return Some(action);
        }
        let ghost all = turn_models(self.actions@);
        let ghost cell = self.local_player_cell_id;
        let mut i: usize = 0;
        assert(all.skip(0) == all);
        while i < self.actions.len()
            invariant
                i <= self.actions@.len(),
                all == turn_models(self.actions@),
                cell == self.local_player_cell_id,
                self@.current() == open_in_current_turn(all, cell),
                open_in_current_turn(all, cell) == open_in_current_turn(all.skip(i as int), cell),
            decreases self.actions@.len() - i,
        {
            assert(all.skip(i as int)[0] == turn_model(self.actions@[i as int]@));
            if turn_is_open(&self.actions[i]) {
                return find_in(&self.actions[i], self.local_player_cell_id, Wanted::Open);
            }
            assert(all.skip(i as int).skip(1) == all.skip(i + 1));
            i = i + 1;
        }
        assert(all.skip(i as int).len() == 0);
        None
    }

    /// The pick that the player may prepare.
    pub fn prepick_action(&self) -> (action: Option<&ChampionAction>)
        ensures
            action_view(action) == self@.prepick(),
    {
        find_of(&self.actions, self.local_player_cell_id, Wanted::OpenPick)
    }

    /// Whether a champion was banned.
    pub fn is_banned(&self, champion_id: i64) -> (banned: bool)
        ensures
            banned == self@.is_banned(champion_id),
    {
        let ghost turns = turn_models(self.actions@);
        let mut t: usize = 0;
        while t < self.actions.len()
            invariant
                t <= self.actions@.len(),
                turns == turn_models(self.actions@),
                self@.turns == turns,
                forall|a: int, b: int|
                    0 <= a < t && 0 <= b < turns[a].len() ==> !bans(
                        #[trigger] turns[a][b],
                        champion_id,
                    ),
            decreases self.actions@.len() - t,
        {
            let turn = &self.actions[t];
            let ghost all = turn_model(turn@);
            assert(turns[t as int] == all);
            let mut i: usize = 0;
            while i < turn.len()
                invariant
                    t < self.actions@.len(),
                    i <= turn@.len(),
                    turns == turn_models(self.actions@),
                    self@.turns == turns,
                    turns[t as int] == all,
                    all == turn_model(turn@),
                    forall|b: int| 0 <= b < i ==> !bans(#[trigger] all[b], champion_id),
                decreases turn@.len() - i,
            {
                let action = &turn[i];
                assert(all[i as int] == action@);
                if same(action.kind.as_str(), "ban") && action.completed && action.champion_id
                    == champion_id {
                    assert(bans(self@.turns[t as int][i as int], champion_id));
                    return true;
                }
                i = i + 1;
            }
            t = t + 1;
        }
        false
    }
}

/// A champion that an action has chosen.
pub open spec fn chosen(action: Option<PickModel>) -> Option<i64> {
    match action {
        Some(action) => if action.champion_id > 0 {
            Some(action.champion_id)
        } else {
            None
        },
        None => None,
    }
}

fn chosen_by(action: Option<&ChampionAction>) -> (champion_id: Option<i64>)
    ensures
        champion_id == chosen(action_view(action)),
{
    match action {
        Some(action) => {
            if action.champion_id > 0 {
                Some(action.champion_id)
            } else {
                None
            }
        },
        None => None,
    }
}

/// What is shown of a champion select with the champions that are available.
pub open spec fn select_of(session: SessionModel, available: Seq<i64>) -> SelectModel {
    SelectModel {
        game_id: session.game_id,
        action_kind: match session.current() {
            Some(action) => Some(action.kind),
            None => None,
        },
        selected_champion_id: chosen(session.current()),
        prepick_champion_id: chosen(session.prepick()),
        can_complete: chosen(session.current()) is Some,
        can_prepick: session.prepick() is Some,
        available_champion_ids: available.filter(|id: i64| !session.is_banned(id)),
    }
}

fn without_banned(session: &ChampionSession, available: &Vec<i64>) -> (ids: Vec<i64>)
    ensures
        ids@ == available@.filter(|id: i64| !session@.is_banned(id)),
{
    let ghost keep = |id: i64| !session@.is_banned(id);
    let mut ids: Vec<i64> = Vec::new();
    let mut i: usize = 0;
    proof {
        reveal(Seq::filter);
        assert(ids@ == available@.take(0).filter(keep));
    }
    while i < available.len()
        invariant
            i <= available@.len(),
            keep == |id: i64| !session@.is_banned(id),
            ids@ == available@.take(i as int).filter(keep),
        decreases available@.len() - i,
    {
        proof {
            lemma_filter_push(available@.take(i as int), keep, available@[i as int]);
            assert(available@.take(i + 1) == available@.take(i as int).push(available@[i as int]));
        }
        if !session.is_banned(available[i]) {
            ids.push(available[i]);
        }
        i = i + 1;
    }
    assert(available@.take(i as int) == available@);
    ids
}

/// What is shown of a champion select with the champions that are available.
pub fn champion_select_view(session: &ChampionSession, available: &Vec<i64>) -> (select:
    ChampionSelectView)
    ensures
        select@ == select_of(session@, available@),
{
    let action = session.current_action();
    let prepick = session.prepick_action();
    let selected_champion_id = chosen_by(action);
    ChampionSelectView {
        game_id: session.game_id,
        action_kind: match action {
            Some(action) => Some(action.kind.clone()),
            None => None,
        },
        selected_champion_id,
        prepick_champion_id: chosen_by(prepick),
        can_complete: selected_champion_id.is_some(),
        can_prepick: prepick.is_some(),
        available_champion_ids: without_banned(session, available),
    }
}

/// A champion that was banned is never shown as available.
pub proof fn banned_champions_are_not_available(
    session: SessionModel,
    available: Seq<i64>,
    champion_id: i64,
)
    requires
        session.is_banned(champion_id),
    ensures
        !select_of(session, available).available_champion_ids.contains(champion_id),
    decreases available.len(),
{
    let keep = |id: i64| !session.is_banned(id);
    reveal(Seq::filter);
    if available.len() > 0 {
        let front = available.drop_last();
        banned_champions_are_not_available(session, front, champion_id);
        lemma_filter_push(front, keep, available.last());
        assert(available == front.push(available.last()));
        let kept = front.filter(keep);
        if keep(available.last()) {
            assert forall|i: int| 0 <= i < kept.push(available.last()).len() implies kept.push(
                available.last(),
            )[i] != champion_id by {
                if i < kept.len() {
                    assert(kept.contains(kept[i]));
                }
            }
        }
    }
}

/// Which champions can be banned, from the League client's own list; nothing where it is of no
/// use and all champions count instead.
pub open spec fn listed_bans(ids: Option<Seq<i64>>) -> Option<Seq<i64>> {
    match ids {
        Some(ids) => if primary_ids(ids).len() > 0 {
            Some(primary_ids(ids))
        } else {
            None
        },
        None => None,
    }
}

/// What an optional list of ids holds.
pub open spec fn ids_in(ids: Option<Vec<i64>>) -> Option<Seq<i64>> {
    match ids {
        Some(ids) => Some(ids@),
        None => None,
    }
}

/// What an optional list of champions holds.
pub open spec fn summaries_in(summaries: Option<Vec<ChampionSummary>>) -> Option<Seq<SummaryModel>> {
    match summaries {
        Some(summaries) => Some(summary_models(summaries@)),
        None => None,
    }
}

/// Which champions can be banned, from the League client's own list; nothing where it is of no
/// use and all champions count instead.
pub fn ban_candidates(ids: &Option<Vec<i64>>) -> (candidates: Option<Vec<i64>>)
    ensures
        ids_in(candidates) == listed_bans(ids_in(*ids)),
{
    match ids {
        Some(ids) => {
            let kept = retain_primary(ids);
            if kept.len() == 0 {
                None
            } else {
                Some(kept)
            }
        },
        None => None,
    }
}

/// How far a look at a game has come.
pub enum SnapshotStep {
    /// The League client is to be found.
    Connect,
    /// The phase of the game is to be asked for.
    Phase,
    Search { phase: String },
    Ready { phase: String },
    Session { phase: String },
    /// The champions that can be banned are to be asked for.
    Bannable { phase: String, session: ChampionSession },
    /// All champions are to be asked for.
    Champions { phase: String, session: ChampionSession },
    /// The champions that can be picked are to be asked for.
    Pickable { phase: String, session: ChampionSession },
    Done(GameSnapshot),
}

/// How far a look at a game has come, as a mathematical value.
pub enum SnapshotModel {
    Connect,
    Phase,
    Search { phase: Seq<char> },
    Ready { phase: Seq<char> },
    Session { phase: Seq<char> },
    Bannable { phase: Seq<char>, session: SessionModel },
    Champions { phase: Seq<char>, session: SessionModel },
    Pickable { phase: Seq<char>, session: SessionModel },
    Done(GameModel),
}

impl View for SnapshotStep {
    type V = SnapshotModel;

    open spec fn view(&self) -> SnapshotModel {
        match *self {
            SnapshotStep::Connect => SnapshotModel::Connect,
            SnapshotStep::Phase => SnapshotModel::Phase,
            SnapshotStep::Search { phase } => SnapshotModel::Search { phase: phase@ },
            SnapshotStep::Ready { phase } => SnapshotModel::Ready { phase: phase@ },
            SnapshotStep::Session { phase } => SnapshotModel::Session { phase: phase@ },
            SnapshotStep::Bannable { phase, session } => SnapshotModel::Bannable {
                phase: phase@,
                session: session@,
            },
            SnapshotStep::Champions { phase, session } => SnapshotModel::Champions {
                phase: phase@,
                session: session@,
            },
            SnapshotStep::Pickable { phase, session } => SnapshotModel::Pickable {
                phase: phase@,
                session: session@,
            },
            SnapshotStep::Done(snapshot) => SnapshotModel::Done(snapshot@),
        }
    }
}

/// What the League client answered; nothing where it did not answer usably.
pub enum LeagueReply {
    /// Whether the League client was found.
    Connected(bool),
    Phase(Option<String>),
    Search(Option<MatchmakingSearch>),
    Ready(Option<ReadyCheck>),
    Session(Option<ChampionSession>),
    Ids(Option<Vec<i64>>),
    Champions(Option<Vec<ChampionSummary>>),
    /// The status that an action was answered with.
    Written(Option<u16>),
}

/// What the League client answered, as a mathematical value.
pub enum LeagueReplyModel {
    Connected(bool),
    Phase(Option<Seq<char>>),
    Search(Option<Option<u64>>),
    Ready(Option<ReadyCheckModel>),
    Session(Option<SessionModel>),
    Ids(Option<Seq<i64>>),
    Champions(Option<Seq<SummaryModel>>),
    Written(Option<u16>),
}

impl View for LeagueReply {
    type V = LeagueReplyModel;

    open spec fn view(&self) -> LeagueReplyModel {
        match *self {
            LeagueReply::Connected(found) => LeagueReplyModel::Connected(found),
            LeagueReply::Phase(phase) => LeagueReplyModel::Phase(owned(phase)),
            LeagueReply::Search(search) => LeagueReplyModel::Search(
                match search {
                    Some(search) => Some(search.elapsed()),
                    None => None,
                },
            ),
            LeagueReply::Ready(check) => LeagueReplyModel::Ready(
                match check {
                    Some(check) => Some(check@),
                    None => None,
                },
            ),
            LeagueReply::Session(session) => LeagueReplyModel::Session(
                match session {
                    Some(session) => Some(session@),
                    None => None,
                },
            ),
            LeagueReply::Ids(ids) => LeagueReplyModel::Ids(ids_in(ids)),
            LeagueReply::Champions(summaries) => LeagueReplyModel::Champions(
                summaries_in(summaries),
            ),
            LeagueReply::Written(status) => LeagueReplyModel::Written(status),
        }
    }
}

/// What the look at a game turns to once the phase is known.
pub open spec fn phase_known(phase: Seq<char>) -> SnapshotModel {
    if phase == "Matchmaking"@ {
        SnapshotModel::Search { phase }
    } else if phase == "ReadyCheck"@ {
        SnapshotModel::Ready { phase }
    } else if phase == "ChampSelect"@ {
        SnapshotModel::Session { phase }
    } else {
        SnapshotModel::Done(plain_game(phase))
    }
}

/// What is shown once it is known which champions are available.
pub open spec fn with_available(
    phase: Seq<char>,
    session: SessionModel,
    available: Option<Seq<i64>>,
) -> GameModel {
    match available {
        Some(available) => GameModel {
            champion_select: Some(select_of(session, available)),
            ..plain_game(phase)
        },
        None => GameModel {
            message: Some("Available champion details are unavailable."@),
            ..plain_game(phase)
        },
    }
}

impl SnapshotModel {
    /// The look after an answer. An answer that was not asked for changes nothing.
    pub open spec fn after(self, reply: LeagueReplyModel) -> SnapshotModel {
        match (self, reply) {
            (SnapshotModel::Connect, LeagueReplyModel::Connected(found)) => if found {
                SnapshotModel::Phase
            } else {
                SnapshotModel::Done(unavailable_game("League Client is not connected."@))
            },
            (SnapshotModel::Phase, LeagueReplyModel::Phase(phase)) => match phase {
                Some(phase) => phase_known(phase),
                None => SnapshotModel::Done(
                    unavailable_game("League Client state is unavailable."@),
                ),
            },
            (SnapshotModel::Search { phase }, LeagueReplyModel::Search(search)) => {
                SnapshotModel::Done(
                    GameModel {
                        queue_time_seconds: match search {
                            Some(seconds) => seconds,
                            None => None,
                        },
                        ..plain_game(phase)
                    },
                )
            },
            (SnapshotModel::Ready { phase }, LeagueReplyModel::Ready(check)) => match check {
                Some(check) => SnapshotModel::Done(
                    GameModel { ready_check: awaits_response(check), ..plain_game(phase) },
                ),
                None => SnapshotModel::Done(
                    GameModel {
                        message: Some("Ready check details are unavailable."@),
                        ..plain_game(phase)
                    },
                ),
            },
            (SnapshotModel::Session { phase }, LeagueReplyModel::Session(session)) => {
                match session {
                    Some(session) => if session.is_banning() {
                        SnapshotModel::Bannable { phase, session }
                    } else {
                        SnapshotModel::Pickable { phase, session }
                    },
                    None => SnapshotModel::Done(
                        GameModel {
                            message: Some("Champion select details are unavailable."@),
                            ..plain_game(phase)
                        },
                    ),
                }
            },
            (SnapshotModel::Bannable { phase, session }, LeagueReplyModel::Ids(ids)) => {
                match listed_bans(ids) {
                    Some(ids) => SnapshotModel::Done(with_available(phase, session, Some(ids))),
                    None => SnapshotModel::Champions { phase, session },
                }
            },
            (SnapshotModel::Champions { phase, session }, LeagueReplyModel::Champions(all)) => {
                SnapshotModel::Done(
                    with_available(
                        phase,
                        session,
                        match all {
                            Some(all) => Some(primary_ids(ids_of(all))),
                            None => None,
                        },
                    ),
                )
            },
            (SnapshotModel::Pickable { phase, session }, LeagueReplyModel::Ids(ids)) => {
                SnapshotModel::Done(with_available(phase, session, ids))
            },
            _ => self,
        }
    }
}

fn show_available(
    phase: String,
    session: &ChampionSession,
    available: &Option<Vec<i64>>,
) -> (snapshot: GameSnapshot)
    ensures
        snapshot@ == with_available(phase@, session@, ids_in(*available)),
{
    match available {
        Some(available) => GameSnapshot {
            phase,
            queue_time_seconds: None,
            ready_check: false,
            champion_select: Some(champion_select_view(session, available)),
            message: None,
        },
        None => GameSnapshot::with_message(phase, "Available champion details are unavailable."),
    }
}

fn is_banning(session: &ChampionSession) -> (banning: bool)
    ensures
        banning == session@.is_banning(),
{
    match session.current_action() {
        Some(action) => same(action.kind.as_str(), "ban"),
        None => false,
    }
}

/// What the League client is to be asked.
#[derive(Debug, PartialEq, Eq)]
pub enum LeagueQuery<'a> {
    /// Find the League client.
    Connect,
    Phase,
    Search,
    Ready,
    Session,
    Bannable,
    Champions,
    Pickable,
    /// Do something.
    Write(&'a WriteRequest),
    Nothing,
}

/// Begins to look at a game.
pub fn snapshot() -> (step: SnapshotStep)
    ensures
        step@ == SnapshotModel::Connect,
{
    SnapshotStep::Connect
}

impl SnapshotStep {
    /// What the League client is to be asked next.
    pub fn query(&self) -> (query: LeagueQuery<'_>)
        ensures
            match self@ {
                SnapshotModel::Connect => query is Connect,
                SnapshotModel::Phase => query is Phase,
                SnapshotModel::Search { .. } => query is Search,
                SnapshotModel::Ready { .. } => query is Ready,
                SnapshotModel::Session { .. } => query is Session,
                SnapshotModel::Bannable { .. } => query is Bannable,
                SnapshotModel::Champions { .. } => query is Champions,
                SnapshotModel::Pickable { .. } => query is Pickable,
                SnapshotModel::Done(_) => query is Nothing,
            },
    {
        match self {
            SnapshotStep::Connect => LeagueQuery::Connect,
            SnapshotStep::Phase => LeagueQuery::Phase,
            SnapshotStep::Search { .. } => LeagueQuery::Search,
            SnapshotStep::Ready { .. } => LeagueQuery::Ready,
            SnapshotStep::Session { .. } => LeagueQuery::Session,
            SnapshotStep::Bannable { .. } => LeagueQuery::Bannable,
            SnapshotStep::Champions { .. } => LeagueQuery::Champions,
            SnapshotStep::Pickable { .. } => LeagueQuery::Pickable,
            SnapshotStep::Done(_) => LeagueQuery::Nothing,
        }
    }

    /// Goes on after an answer. An answer that was not asked for changes nothing.
    pub fn proceed(self, reply: LeagueReply) -> (next: SnapshotStep)
        ensures
            next@ == self@.after(reply@),
    {
        match (self, reply) {
            (SnapshotStep::Connect, LeagueReply::Connected(found)) => {
                if found {
                    SnapshotStep::Phase
                } else {
                    SnapshotStep::Done(GameSnapshot::unavailable("League Client is not connected."))
                }
            },
            (SnapshotStep::Phase, LeagueReply::Phase(phase)) => {
                match phase {
                    Some(phase) => {
                        if same(phase.as_str(), "Matchmaking") {
                            SnapshotStep::Search { phase }
                        } else if same(phase.as_str(), "ReadyCheck") {
                            SnapshotStep::Ready { phase }
                        } else if same(phase.as_str(), "ChampSelect") {
                            SnapshotStep::Session { phase }
                        } else {
                            SnapshotStep::Done(GameSnapshot::plain(phase))
                        }
                    },
                    None => SnapshotStep::Done(
                        GameSnapshot::unavailable("League Client state is unavailable."),
                    ),
                }
            },
            (SnapshotStep::Search { phase }, LeagueReply::Search(search)) => {
                let mut snapshot = GameSnapshot::plain(phase);
                snapshot.queue_time_seconds = match &search {
                    Some(search) => search.elapsed_seconds(),
                    None => None,
                };
                SnapshotStep::Done(snapshot)
            },
            (SnapshotStep::Ready { phase }, LeagueReply::Ready(check)) => {
                match &check {
                    Some(check) => {
                        let mut snapshot = GameSnapshot::plain(phase);
                        snapshot.ready_check = ready_check_available(check);
                        SnapshotStep::Done(snapshot)
                    },
                    None => SnapshotStep::Done(
                        GameSnapshot::with_message(phase, "Ready check details are unavailable."),
                    ),
                }
            },
            (SnapshotStep::Session { phase }, LeagueReply::Session(session)) => {
                match session {
                    Some(session) => {
                        if is_banning(&session) {
                            SnapshotStep::Bannable { phase, session }
                        } else {
                            SnapshotStep::Pickable { phase, session }
                        }
                    },
                    None => SnapshotStep::Done(
                        GameSnapshot::with_message(
                            phase,
                            "Champion select details are unavailable.",
                        ),
                    ),
                }
            },
            (SnapshotStep::Bannable { phase, session }, LeagueReply::Ids(ids)) => {
                let candidates = ban_candidates(&ids);
                if candidates.is_some() {
                    SnapshotStep::Done(show_available(phase, &session, &candidates))
                } else {
                    SnapshotStep::Champions { phase, session }
                }
            },
            (SnapshotStep::Champions { phase, session }, LeagueReply::Champions(all)) => {
                let candidates = match &all {
                    Some(all) => Some(fallback_ban_candidates(all)),
                    None => None,
                };
                SnapshotStep::Done(show_available(phase, &session, &candidates))
            },
            (SnapshotStep::Pickable { phase, session }, LeagueReply::Ids(ids)) => {
                SnapshotStep::Done(show_available(phase, &session, &ids))
            },
            (step, _) => step,
        }
    }
}

/// The champion that the remote page chose.
#[derive(Clone, Copy, Debug, PartialEq, Eq)]
pub struct ChampionChoice {
    pub champion_id: i64,
}

/// What the remote page is told about an action.
#[derive(Debug, PartialEq, Eq)]
pub struct ActionResult {
    pub ok: bool,
    pub message: Option<String>,
}

impl ActionResult {
    /// The action was done.
    pub fn success() -> (result: ActionResult)
        ensures
            result.ok,
            result.message is None,
    {
        ActionResult { ok: true, message: None }
    }

    /// The action was not done.
    pub fn error(message: &str) -> (result: ActionResult)
        ensures
            !result.ok,
            owned(result.message) == Some(message@),
    {
        ActionResult { ok: false, message: Some(message.to_owned()) }
    }
}

/// Why an action was not done, with the status that says so.
#[derive(Debug, PartialEq, Eq)]
pub struct ActionError {
    pub status: u16,
    pub message: String,
}

/// Why an action was not done, as a mathematical value.
pub struct ActionErrorModel {
    pub status: u16,
    pub message: Seq<char>,
}

impl View for ActionError {
    type V = ActionErrorModel;

    open spec fn view(&self) -> ActionErrorModel {
        ActionErrorModel { status: self.status, message: self.message@ }
    }
}

/// The action does not fit the state of the game.
pub open spec fn conflict_with(message: Seq<char>) -> ActionErrorModel {
    ActionErrorModel { status: 409, message }
}

/// The League client did not answer.
pub open spec fn no_answer() -> ActionErrorModel {
    ActionErrorModel {
        status: 502,
        message: "League Client did not respond. Try again after it reconnects."@,
    }
}

impl ActionError {
    /// The action does not fit the state of the game.
    pub fn conflict(message: &str) -> (error: ActionError)
        ensures
            error@ == conflict_with(message@),
    {
        ActionError { status: 409, message: message.to_owned() }
    }

    /// The League client did not answer.
    pub fn unavailable() -> (error: ActionError)
        ensures
            error@ == no_answer(),
    {
        ActionError {
            status: 502,
            message: "League Client did not respond. Try again after it reconnects.".to_owned(),
        }
    }
}

/// The champions that can be chosen, from the answers of the League client. Without recommended
/// positions the champions have none.
pub fn catalog(
    summaries: Option<Vec<ChampionSummary>>,
    positions: Option<Vec<RecommendedPositions>>,
) -> (result: Result<Vec<Champion>, ActionError>)
    ensures
        match (result, summaries) {
            (Ok(champions), Some(all)) => champion_models(champions@) == by_name(
                entries_of(
                    summary_models(all@),
                    match positions {
                        Some(positions) => positions_models(positions@),
                        None => Seq::empty(),
                    },
                ),
            ),
            (Err(error), None) => error@ == no_answer(),
            _ => false,
        },
{
    match summaries {
        Some(all) => {
            let known = match positions {
                Some(positions) => positions,
                None => {
                    let none: Vec<RecommendedPositions> = Vec::new();
                    assert(positions_models(none@) =~= Seq::empty());
                    none
                },
            };
            Ok(catalog_entries(&all, &known))
        },
        None => Err(ActionError::unavailable()),
    }
}

/// The largest champion icon, in bytes.
pub const MAX_CHAMPION_ICON_BYTES: usize = 524_288;

/// The path of a champion's icon.
pub open spec fn icon_address(champion_id: i64) -> Seq<char> {
    "/lol-game-data/assets/v1/champion-icons/"@ + signed_decimal(champion_id as int) + ".png"@
}

/// The path of a champion's icon; only champions' own ids have one.
pub fn icon_path(champion_id: i64) -> (result: Result<String, ActionError>)
    ensures
        match result {
            Ok(path) => is_primary(champion_id) && path@ == icon_address(champion_id),
            Err(error) => !is_primary(champion_id) && error@ == conflict_with("Unknown champion."@),
        },
{
    if !primary(champion_id) {
        return Err(ActionError::conflict("Unknown champion."));
    }
    let mut path = "/lol-game-data/assets/v1/champion-icons/".to_owned();
    path.append(signed_decimal_of(champion_id).as_str());
    path.append(".png");
    Ok(path)
}

/// Whether bytes begin like a PNG image.
pub open spec fn is_png(bytes: Seq<u8>) -> bool {
    bytes.len() >= 8 && bytes.take(8) == seq![0x89u8, 0x50, 0x4e, 0x47, 0x0d, 0x0a, 0x1a, 0x0a]
}

fn begins_like_png(bytes: &Vec<u8>) -> (result: bool)
    ensures
        result == is_png(bytes@),
{
    let result = bytes.len() >= 8 && bytes[0] == 0x89 && bytes[1] == 0x50 && bytes[2] == 0x4e
        && bytes[3] == 0x47 && bytes[4] == 0x0d && bytes[5] == 0x0a && bytes[6] == 0x1a && bytes[7]
        == 0x0a;
    proof {
        let magic = seq![0x89u8, 0x50, 0x4e, 0x47, 0x0d, 0x0a, 0x1a, 0x0a];
        if result {
            assert(bytes@.take(8) =~= magic);
        } else if bytes@.len() >= 8 && bytes@.take(8) == magic {
            assert(forall|i: int| 0 <= i < 8 ==> bytes@.take(8)[i] == #[trigger] bytes@[i]);
            assert(false);
        }
    }
    result
}

/// A champion's icon from the bytes that the League client answered with, where it did.
pub fn icon(bytes: Option<Vec<u8>>) -> (result: Result<Vec<u8>, ActionError>)
    ensures
        match (result, bytes) {
            (Ok(image), Some(answer)) => {
                &&& image@ == answer@
                &&& answer@.len() <= MAX_CHAMPION_ICON_BYTES
                &&& is_png(answer@)
            },
            (Err(error), Some(answer)) => {
                &&& error@ == no_answer()
                &&& answer@.len() > MAX_CHAMPION_ICON_BYTES || !is_png(answer@)
            },
            (Err(error), None) => error@ == no_answer(),
            _ => false,
        },
{
    match bytes {
        Some(bytes) => {
            if bytes.len() == 0 || bytes.len() > MAX_CHAMPION_ICON_BYTES || !begins_like_png(
                &bytes,
            ) {
                return Err(ActionError::unavailable());
            }
            Ok(bytes)
        },
        None => Err(ActionError::unavailable()),
    }
}

/// What the remote page wants to do.
#[derive(Clone, Copy, Debug, PartialEq, Eq)]
pub enum Goal {
    AcceptReadyCheck,
    Select(i64),
    Prepick(i64),
    Lock,
}

/// How a request is made.
#[derive(Clone, Copy, Debug, PartialEq, Eq)]
pub enum Method {
    Post,
    Patch,
}

/// Something that the League client is to do.
#[derive(Debug, PartialEq, Eq)]
pub struct WriteRequest {
    pub method: Method,
    pub path: String,
    /// What is changed at an action of a champion select; nothing where the request carries
    /// nothing.
    pub change: Option<ActionChange>,
}

/// What is changed at an action of a champion select.
#[derive(Clone, Copy, Debug, PartialEq, Eq)]
pub struct ActionChange {
    pub champion_id: i64,
    pub completed: bool,
}

/// Something that the League client is to do, as a mathematical value.
pub struct WriteModel {
    pub method: Method,
    pub path: Seq<char>,
    pub change: Option<ActionChange>,
}

impl View for WriteRequest {
    type V = WriteModel;

    open spec fn view(&self) -> WriteModel {
        WriteModel { method: self.method, path: self.path@, change: self.change }
    }
}

/// How far an action has come.
pub enum ActionStep {
    Connect,
    Phase,
    Ready,
    Session,
    /// The champions that can be banned are to be asked for.
    Bannable(ChampionSession),
    /// All champions are to be asked for.
    Champions(ChampionSession),
    /// The champions that can be picked are to be asked for.
    Pickable(ChampionSession),
    Write(WriteRequest),
    Done(Result<(), ActionError>),
}

/// How far an action has come, as a mathematical value.
pub enum ActionModel {
    Connect,
    Phase,
    Ready,
    Session,
    Bannable(SessionModel),
    Champions(SessionModel),
    Pickable(SessionModel),
    Write(WriteModel),
    Done(Result<(), ActionErrorModel>),
}

impl View for ActionStep {
    type V = ActionModel;

    open spec fn view(&self) -> ActionModel {
        match *self {
            ActionStep::Connect => ActionModel::Connect,
            ActionStep::Phase => ActionModel::Phase,
            ActionStep::Ready => ActionModel::Ready,
            ActionStep::Session => ActionModel::Session,
            ActionStep::Bannable(session) => ActionModel::Bannable(session@),
            ActionStep::Champions(session) => ActionModel::Champions(session@),
            ActionStep::Pickable(session) => ActionModel::Pickable(session@),
            ActionStep::Write(request) => ActionModel::Write(request@),
            ActionStep::Done(Ok(())) => ActionModel::Done(Ok(())),
            ActionStep::Done(Err(error)) => ActionModel::Done(Err(error@)),
        }
    }
}

/// An action in progress.
pub struct ActionRun {
    pub goal: Goal,
    pub step: ActionStep,
}

/// An action that was refused.
pub open spec fn refused(message: Seq<char>) -> ActionModel {
    ActionModel::Done(Err(conflict_with(message)))
}

/// An action that the League client did not answer.
pub open spec fn unanswered() -> ActionModel {
    ActionModel::Done(Err(no_answer()))
}

/// An action as it begins: a champion has to be chosen before it can be selected or prepared.
pub open spec fn action_begun(goal: Goal) -> ActionModel {
    match goal {
        Goal::Select(id) => if id <= 0 {
            refused("Choose a champion first."@)
        } else {
            ActionModel::Connect
        },
        Goal::Prepick(id) => if id <= 0 {
            refused("Choose a champion first."@)
        } else {
            ActionModel::Connect
        },
        _ => ActionModel::Connect,
    }
}

/// The action of a champion select that a goal is about.
pub open spec fn target_action(goal: Goal, session: SessionModel) -> Option<PickModel> {
    match goal {
        Goal::Select(_) => match session.current() {
            Some(action) => Some(action),
            None => session.prepick(),
        },
        Goal::Prepick(_) => session.prepick(),
        Goal::Lock => session.current(),
        Goal::AcceptReadyCheck => None,
    }
}

/// The request that changes an action of a champion select.
pub open spec fn change_request(action: PickModel, champion_id: i64, completed: bool) -> WriteModel {
    WriteModel {
        method: Method::Patch,
        path: SESSION_PATH@ + "/actions/"@ + signed_decimal(action.id as int),
        change: Some(ActionChange { champion_id, completed }),
    }
}

/// What an action turns to once the champion select is known.
pub open spec fn session_known(goal: Goal, session: SessionModel) -> ActionModel {
    match target_action(goal, session) {
        None => refused(
            match goal {
                Goal::Select(_) => "No pick or ban action is available."@,
                Goal::Prepick(_) => "There is no pending pick action."@,
                _ => "It is not your pick or ban turn."@,
            },
        ),
        Some(action) => match goal {
            Goal::Lock => if action.champion_id <= 0 {
                refused("Select a champion before confirming."@)
            } else {
                ActionModel::Write(change_request(action, action.champion_id, true))
            },
            Goal::Select(_) => if action.kind == "ban"@ {
                ActionModel::Bannable(session)
            } else {
                ActionModel::Pickable(session)
            },
            _ => ActionModel::Pickable(session),
        },
    }
}

/// What an action turns to once it is known which champions are available.
pub open spec fn available_known(goal: Goal, session: SessionModel, available: Seq<i64>) -> ActionModel {
    match (goal, target_action(goal, session)) {
        (Goal::Select(id), Some(action)) => if !available.contains(id) || session.is_banned(id) {
            refused("That champion is not currently available."@)
        } else {
            ActionModel::Write(change_request(action, id, false))
        },
        (Goal::Prepick(id), Some(action)) => if !available.contains(id) || session.is_banned(id) {
            refused("That champion is not currently pickable."@)
        } else {
            ActionModel::Write(change_request(action, id, false))
        },
        _ => unanswered(),
    }
}

/// The request that accepts a ready check.
pub open spec fn accept_request() -> WriteModel {
    WriteModel { method: Method::Post, path: READY_CHECK_PATH@ + "/accept"@, change: None }
}

impl ActionModel {
    /// The action after an answer. An answer that was not asked for changes nothing.
    pub open spec fn after(self, goal: Goal, reply: LeagueReplyModel) -> ActionModel {
        match (self, reply) {
            (ActionModel::Connect, LeagueReplyModel::Connected(found)) => if found {
                ActionModel::Phase
            } else {
                unanswered()
            },
            (ActionModel::Phase, LeagueReplyModel::Phase(phase)) => match phase {
                None => unanswered(),
                Some(phase) => match goal {
                    Goal::AcceptReadyCheck => if phase == "ReadyCheck"@ {
                        ActionModel::Ready
                    } else {
                        refused("There is no active ready check."@)
                    },
                    _ => if phase == "ChampSelect"@ {
                        ActionModel::Session
                    } else {
                        refused("Champion select is not active."@)
                    },
                },
            },
            (ActionModel::Ready, LeagueReplyModel::Ready(check)) => match check {
                None => unanswered(),
                Some(check) => if awaits_response(check) {
                    ActionModel::Write(accept_request())
                } else {
                    refused("This ready check is no longer awaiting your response."@)
                },
            },
            (ActionModel::Session, LeagueReplyModel::Session(session)) => match session {
                None => unanswered(),
                Some(session) => session_known(goal, session),
            },
            (ActionModel::Bannable(session), LeagueReplyModel::Ids(ids)) => {
                match listed_bans(ids) {
                    Some(ids) => available_known(goal, session, ids),
                    None => ActionModel::Champions(session),
                }
            },
            (ActionModel::Champions(session), LeagueReplyModel::Champions(all)) => match all {
                None => unanswered(),
                Some(all) => available_known(goal, session, primary_ids(ids_of(all))),
            },
            (ActionModel::Pickable(session), LeagueReplyModel::Ids(ids)) => match ids {
                None => unanswered(),
                Some(ids) => available_known(goal, session, ids),
            },
            (ActionModel::Write(_), LeagueReplyModel::Written(status)) => match status {
                None => unanswered(),
                Some(status) => if 200 <= status && status < 300 {
                    ActionModel::Done(Ok(()))
                } else {
                    refused("League rejected this action. Refresh the page and try again."@)
                },
            },
            _ => self,
        }
    }
}

fn refuse(message: &str) -> (step: ActionStep)
    ensures
        step@ == refused(message@),
{
    ActionStep::Done(Err(ActionError::conflict(message)))
}

fn give_up() -> (step: ActionStep)
    ensures
        step@ == unanswered(),
{
    ActionStep::Done(Err(ActionError::unavailable()))
}

fn change_of(action: &ChampionAction, champion_id: i64, completed: bool) -> (step: ActionStep)
    ensures
        step@ == ActionModel::Write(change_request(action@, champion_id, completed)),
{
    let mut path = SESSION_PATH.to_owned();
    path.append("/actions/");
    path.append(signed_decimal_of(action.id).as_str());
    ActionStep::Write(
        WriteRequest {
            method: Method::Patch,
            path,
            change: Some(ActionChange { champion_id, completed }),
        },
    )
}

fn target_of(goal: Goal, session: &ChampionSession) -> (action: Option<&ChampionAction>)
    ensures
        action_view(action) == target_action(goal, session@),
{
    match goal {
        Goal::Select(_) => {
            match session.current_action() {
                Some(action) => Some(action),
                None => session.prepick_action(),
            }
        },
        Goal::Prepick(_) => session.prepick_action(),
        Goal::Lock => session.current_action(),
        Goal::AcceptReadyCheck => None,
    }
}

fn with_session(goal: Goal, session: ChampionSession) -> (step: ActionStep)
    ensures
        step@ == session_known(goal, session@),
{
    let banning = match target_of(goal, &session) {
        None => {
            return match goal {
                Goal::Select(_) => refuse("No pick or ban action is available."),
                Goal::Prepick(_) => refuse("There is no pending pick action."),
                _ => refuse("It is not your pick or ban turn."),
            };
        },
        Some(action) => {
            match goal {
                Goal::Lock => {
                    return if action.champion_id <= 0 {
                        refuse("Select a champion before confirming.")
                    } else {
                        change_of(action, action.champion_id, true)
                    };
                },
                Goal::Select(_) => same(action.kind.as_str(), "ban"),
                _ => false,
            }
        },
    };
    if banning {
        ActionStep::Bannable(session)
    } else {
        ActionStep::Pickable(session)
    }
}

fn contains_id(ids: &Vec<i64>, id: i64) -> (found: bool)
    ensures
        found == ids@.contains(id),
{
    let mut i: usize = 0;
    while i < ids.len()
        invariant
            i <= ids@.len(),
            forall|k: int| 0 <= k < i ==> ids@[k] != id,
        decreases ids@.len() - i,
    {
        if ids[i] == id {
            return true;
        }
        i = i + 1;
    }
    false
}

fn with_available_ids(goal: Goal, session: &ChampionSession, available: &Vec<i64>) -> (step:
    ActionStep)
    ensures
        step@ == available_known(goal, session@, available@),
{
    match (goal, target_of(goal, session)) {
        (Goal::Select(id), Some(action)) => {
            if !contains_id(available, id) || session.is_banned(id) {
                refuse("That champion is not currently available.")
            } else {
                change_of(action, id, false)
            }
        },
        (Goal::Prepick(id), Some(action)) => {
            if !contains_id(available, id) || session.is_banned(id) {
                refuse("That champion is not currently pickable.")
            } else {
                change_of(action, id, false)
            }
        },
        _ => give_up(),
    }
}

fn begin(goal: Goal) -> (run: ActionRun)
    ensures
        run.goal == goal,
        run.step@ == action_begun(goal),
{
    let step = match goal {
        Goal::Select(id) => {
            if id <= 0 {
                refuse("Choose a champion first.")
            } else {
                ActionStep::Connect
            }
        },
        Goal::Prepick(id) => {
            if id <= 0 {
                refuse("Choose a champion first.")
            } else {
                ActionStep::Connect
            }
        },
        _ => ActionStep::Connect,
    };
    ActionRun { goal, step }
}

/// Begins to accept a ready check.
pub fn accept_ready_check() -> (run: ActionRun)
    ensures
        run.goal == Goal::AcceptReadyCheck,
        run.step@ == action_begun(Goal::AcceptReadyCheck),
{
    begin(Goal::AcceptReadyCheck)
}

/// Begins to select a champion for the current pick or ban, or else for a later pick.
pub fn select_champion(champion_id: i64) -> (run: ActionRun)
    ensures
        run.goal == Goal::Select(champion_id),
        run.step@ == action_begun(Goal::Select(champion_id)),
{
    begin(Goal::Select(champion_id))
}

/// Begins to prepare a later pick.
pub fn prepick_champion(champion_id: i64) -> (run: ActionRun)
    ensures
        run.goal == Goal::Prepick(champion_id),
        run.step@ == action_begun(Goal::Prepick(champion_id)),
{
    begin(Goal::Prepick(champion_id))
}

/// Begins to confirm the current pick or ban.
pub fn lock_champion() -> (run: ActionRun)
    ensures
        run.goal == Goal::Lock,
        run.step@ == action_begun(Goal::Lock),
{
    begin(Goal::Lock)
}

impl ActionRun {
    /// What the League client is to be asked next.
    pub fn query(&self) -> (query: LeagueQuery<'_>)
        ensures
            match self.step@ {
                ActionModel::Connect => query is Connect,
                ActionModel::Phase => query is Phase,
                ActionModel::Ready => query is Ready,
                ActionModel::Session => query is Session,
                ActionModel::Bannable(_) => query is Bannable,
                ActionModel::Champions(_) => query is Champions,
                ActionModel::Pickable(_) => query is Pickable,
                ActionModel::Write(request) => query matches LeagueQuery::Write(asked) && asked@
                    == request,
                ActionModel::Done(_) => query is Nothing,
            },
    {
        match &self.step {
            ActionStep::Connect => LeagueQuery::Connect,
            ActionStep::Phase => LeagueQuery::Phase,
            ActionStep::Ready => LeagueQuery::Ready,
            ActionStep::Session => LeagueQuery::Session,
            ActionStep::Bannable(_) => LeagueQuery::Bannable,
            ActionStep::Champions(_) => LeagueQuery::Champions,
            ActionStep::Pickable(_) => LeagueQuery::Pickable,
            ActionStep::Write(request) => LeagueQuery::Write(request),
            ActionStep::Done(_) => LeagueQuery::Nothing,
        }
    }

    /// Goes on after an answer. An answer that was not asked for changes nothing.
    pub fn proceed(self, reply: LeagueReply) -> (next: ActionRun)
        ensures
            next.goal == self.goal,
            next.step@ == self.step@.after(self.goal, reply@),
    {
        let goal = self.goal;
        let step = match (self.step, reply) {
            (ActionStep::Connect, LeagueReply::Connected(found)) => {
                if found {
                    ActionStep::Phase
                } else {
                    give_up()
                }
            },
            (ActionStep::Phase, LeagueReply::Phase(phase)) => {
                match (phase, goal) {
                    (None, _) => give_up(),
                    (Some(phase), Goal::AcceptReadyCheck) => {
                        if same(phase.as_str(), "ReadyCheck") {
                            ActionStep::Ready
                        } else {
                            refuse("There is no active ready check.")
                        }
                    },
                    (Some(phase), _) => {
                        if same(phase.as_str(), "ChampSelect") {
                            ActionStep::Session
                        } else {
                            refuse("Champion select is not active.")
                        }
                    },
                }
            },
            (ActionStep::Ready, LeagueReply::Ready(check)) => {
                match &check {
                    None => give_up(),
                    Some(check) => {
                        if ready_check_available(check) {
                            let mut path = READY_CHECK_PATH.to_owned();
                            path.append("/accept");
                            ActionStep::Write(
                                WriteRequest { method: Method::Post, path, change: None },
                            )
                        } else {
                            refuse("This ready check is no longer awaiting your response.")
                        }
                    },
                }
            },
            (ActionStep::Session, LeagueReply::Session(session)) => {
                match session {
                    None => give_up(),
                    Some(session) => with_session(goal, session),
                }
            },
            (ActionStep::Bannable(session), LeagueReply::Ids(ids)) => {
                match ban_candidates(&ids) {
                    Some(ids) => with_available_ids(goal, &session, &ids),
                    None => ActionStep::Champions(session),
                }
            },
            (ActionStep::Champions(session), LeagueReply::Champions(all)) => {
                match &all {
                    None => give_up(),
                    Some(all) => {
                        let ids = fallback_ban_candidates(all);
                        with_available_ids(goal, &session, &ids)
                    },
                }
            },
            (ActionStep::Pickable(session), LeagueReply::Ids(ids)) => {
                match &ids {
                    None => give_up(),
                    Some(ids) => with_available_ids(goal, &session, ids),
                }
            },
            (ActionStep::Write(_), LeagueReply::Written(status)) => {
                match status {
                    None => give_up(),
                    Some(status) => {
                        if 200 <= status && status < 300 {
                            ActionStep::Done(Ok(()))
                        } else {
                            refuse("League rejected this action. Refresh the page and try again.")
                        }
                    },
                }
            },
            (step, _) => step,
        };
        ActionRun { goal, step }
    }
}

/// A pick or a ban is written only for the player's own open action, and only with a champion
/// that the League client offers and that nobody has banned.
pub proof fn only_available_champions_are_chosen(
    goal: Goal,
    session: SessionModel,
    available: Seq<i64>,
)
    requires
        available_known(goal, session, available) is Write,
    ensures
        match goal {
            Goal::Select(id) => available.contains(id) && !session.is_banned(id),
            Goal::Prepick(id) => available.contains(id) && !session.is_banned(id),
            _ => false,
        },
        target_action(goal, session) matches Some(action) && action.actor_cell_id
            == session.local_player_cell_id && !action.completed,
{
    lemma_own(session);
}

/// The current action and the one that can be prepared are the player's own and still open.
pub proof fn actions_are_the_players_own(session: SessionModel)
    ensures
        session.current() matches Some(action) ==> action.actor_cell_id
            == session.local_player_cell_id && !action.completed,
        session.prepick() matches Some(action) ==> action.actor_cell_id
            == session.local_player_cell_id && !action.completed && action.kind == "pick"@,
{
    lemma_own(session);
}

proof fn lemma_own(session: SessionModel)
    ensures
        session.current() matches Some(action) ==> is_wanted(
            action,
            session.local_player_cell_id,
            Wanted::Open,
        ),
        session.prepick() matches Some(action) ==> is_wanted(
            action,
            session.local_player_cell_id,
            Wanted::OpenPick,
        ),
{
    lemma_first_of(session.turns, session.local_player_cell_id, Wanted::InProgress);
    lemma_first_of(session.turns, session.local_player_cell_id, Wanted::OpenPick);
    lemma_open_in_current_turn(session.turns, session.local_player_cell_id);
}

proof fn lemma_first_in(turn: Seq<PickModel>, cell: i64, wanted: Wanted)
    ensures
        first_in(turn, cell, wanted) matches Some(action) ==> is_wanted(action, cell, wanted),
    decreases turn.len(),
{
    if turn.len() > 0 {
        lemma_first_in(turn.skip(1), cell, wanted);
    }
}

proof fn lemma_first_of(turns: Seq<Seq<PickModel>>, cell: i64, wanted: Wanted)
    ensures
        first_of(turns, cell, wanted) matches Some(action) ==> is_wanted(action, cell, wanted),
    decreases turns.len(),
{
    if turns.len() > 0 {
        lemma_first_in(turns[0], cell, wanted);
        lemma_first_of(turns.skip(1), cell, wanted);
    }
}

proof fn lemma_open_in_current_turn(turns: Seq<Seq<PickModel>>, cell: i64)
    ensures
        open_in_current_turn(turns, cell) matches Some(action) ==> is_wanted(
            action,
            cell,
            Wanted::Open,
        ),
    decreases turns.len(),
{
    if turns.len() > 0 {
        lemma_first_in(turns[0], cell, Wanted::Open);
        lemma_open_in_current_turn(turns.skip(1), cell);
    }
}

/// A ready check is accepted only while it awaits the player's response, so never twice.
pub proof fn ready_check_is_accepted_once(check: ReadyCheckModel)
    requires
        ActionModel::Ready.after(
            Goal::AcceptReadyCheck,
            LeagueReplyModel::Ready(Some(check)),
        ) is Write,
    ensures
        check.state == "InProgress"@,
        check.player_response.len() == 0 || check.player_response == "None"@,
{
}

/// Whether an action is an open pick or ban of the player in the cell `cell`.
pub open spec fn is_open_turn_of(action: PickModel, cell: i64) -> bool {
    &&& action.actor_cell_id == cell
    &&& !action.completed
    &&& action.kind == "pick"@ || action.kind == "ban"@
}

/// Whether the action number `i` of the turn number `t` is `action`.
pub open spec fn stands_at(session: SessionModel, t: int, i: int, action: PickModel) -> bool {
    0 <= t < session.turns.len() && 0 <= i < session.turns[t].len() && session.turns[t][i] == action
}

/// Whether the place `(a, b)` comes before `(t, i)`.
pub open spec fn comes_before(a: int, b: int, t: int, i: int) -> bool {
    a < t || a == t && b < i
}

proof fn lemma_first_place_in(turn: Seq<PickModel>, cell: i64, wanted: Wanted) -> (i: int)
    ensures
        match first_in(turn, cell, wanted) {
            Some(action) => {
                &&& 0 <= i < turn.len()
                &&& turn[i] == action
                &&& is_wanted(action, cell, wanted)
                &&& forall|k: int| 0 <= k < i ==> !is_wanted(#[trigger] turn[k], cell, wanted)
            },
            None => forall|k: int|
                0 <= k < turn.len() ==> !is_wanted(#[trigger] turn[k], cell, wanted),
        },
    decreases turn.len(),
{
    if turn.len() == 0 || is_wanted(turn[0], cell, wanted) {
        0
    } else {
        let rest = turn.skip(1);
        let i = lemma_first_place_in(rest, cell, wanted);
        assert forall|k: int|
            0 <= k < turn.len() && (first_in(turn, cell, wanted) is Some ==> k < i + 1)
            implies !is_wanted(#[trigger] turn[k], cell, wanted) by {
            if k > 0 {
                assert(rest[k - 1] == turn[k]);
            }
        }
        i + 1
    }
}

proof fn lemma_first_place_of(turns: Seq<Seq<PickModel>>, cell: i64, wanted: Wanted) -> (place: (
    int,
    int,
))
    ensures
        match first_of(turns, cell, wanted) {
            Some(action) => {
                let (t, i) = place;
                &&& 0 <= t < turns.len()
                &&& 0 <= i < turns[t].len()
                &&& turns[t][i] == action
                &&& is_wanted(action, cell, wanted)
                &&& forall|a: int, b: int|
                    0 <= a < turns.len() && 0 <= b < turns[a].len() && comes_before(a, b, t, i)
                        ==> !is_wanted(#[trigger] turns[a][b], cell, wanted)
            },
            None => forall|a: int, b: int|
                0 <= a < turns.len() && 0 <= b < turns[a].len() ==> !is_wanted(
                    #[trigger] turns[a][b],
                    cell,
                    wanted,
                ),
        },
    decreases turns.len(),
{
    if turns.len() == 0 {
        (0, 0)
    } else {
        let i = lemma_first_place_in(turns[0], cell, wanted);
        if first_in(turns[0], cell, wanted) is Some {
            (0, i)
        } else {
            let rest = turns.skip(1);
            let (t, i) = lemma_first_place_of(rest, cell, wanted);
            assert forall|a: int, b: int|
                0 <= a < turns.len() && 0 <= b < turns[a].len() && (first_of(
                    turns,
                    cell,
                    wanted,
                ) is Some ==> comes_before(a, b, t + 1, i)) implies !is_wanted(
                #[trigger] turns[a][b],
                cell,
                wanted,
            ) by {
                if a > 0 {
                    assert(rest[a - 1] == turns[a]);
                    assert(!is_wanted(rest[a - 1][b], cell, wanted));
                }
            }
            (t + 1, i)
        }
    }
}

proof fn lemma_current_turn(turns: Seq<Seq<PickModel>>, cell: i64) -> (place: (int, int))
    ensures
        match open_in_current_turn(turns, cell) {
            Some(action) => {
                let (t, i) = place;
                &&& 0 <= t < turns.len()
                &&& 0 <= i < turns[t].len()
                &&& turns[t][i] == action
                &&& is_wanted(action, cell, Wanted::Open)
                &&& forall|b: int|
                    0 <= b < i ==> !is_wanted(#[trigger] turns[t][b], cell, Wanted::Open)
                &&& forall|a: int, b: int|
                    0 <= a < t && 0 <= b < turns[a].len() ==> (#[trigger] turns[a][b]).completed
            },
            None => forall|t: int, i: int|
                0 <= t < turns.len() && 0 <= i < turns[t].len() && (forall|a: int, b: int|
                    0 <= a < t && 0 <= b < turns[a].len() ==> (#[trigger] turns[a][b]).completed)
                    ==> !is_wanted(#[trigger] turns[t][i], cell, Wanted::Open),
        },
    decreases turns.len(),
{
    if turns.len() == 0 {
        (0, 0)
    } else if is_open(turns[0]) {
        let i = lemma_first_place_in(turns[0], cell, Wanted::Open);
        if open_in_current_turn(turns, cell) is None {
            let n = choose|n: int| 0 <= n < turns[0].len() && !(#[trigger] turns[0][n]).completed;
            assert forall|t: int, i: int|
                0 <= t < turns.len() && 0 <= i < turns[t].len() && (forall|a: int, b: int|
                    0 <= a < t && 0 <= b < turns[a].len() ==> (#[trigger] turns[a][b]).completed)
                implies !is_wanted(#[trigger] turns[t][i], cell, Wanted::Open) by {
                if t > 0 {
                    assert(turns[0][n].completed);
                }
            }
        }
        (0, i)
    } else {
        let rest = turns.skip(1);
        let (t, i) = lemma_current_turn(rest, cell);
        assert forall|b: int| 0 <= b < turns[0].len() implies (#[trigger] turns[0][b]).completed by {
            assert(!is_open(turns[0]));
        }
        if open_in_current_turn(turns, cell) is Some {
            assert forall|a: int, b: int| 0 <= a < t + 1 && 0 <= b < turns[a].len() implies (
            #[trigger] turns[a][b]).completed by {
                if a > 0 {
                    assert(rest[a - 1][b] == turns[a][b]);
                }
            }
        } else {
            assert forall|u: int, i: int|
                0 <= u < turns.len() && 0 <= i < turns[u].len() && (forall|a: int, b: int|
                    0 <= a < u && 0 <= b < turns[a].len() ==> (#[trigger] turns[a][b]).completed)
                implies !is_wanted(#[trigger] turns[u][i], cell, Wanted::Open) by {
                if u > 0 {
                    assert(rest[u - 1] == turns[u]);
                    assert forall|a: int, b: int|
                        0 <= a < u - 1 && 0 <= b < rest[a].len() implies (
                    #[trigger] rest[a][b]).completed by {
                        assert(turns[a + 1][b].completed);
                    }
                    assert(!is_wanted(rest[u - 1][i], cell, Wanted::Open));
                }
            }
        }
        (t + 1, i)
    }
}

/// The pick that the player may prepare is the first open pick of the player's, and there is one
/// unless there is no such pick.
pub proof fn first_open_pick_is_prepared(session: SessionModel)
    ensures
        match session.prepick() {
            Some(action) => {
                &&& is_open_turn_of(action, session.local_player_cell_id)
                &&& action.kind == "pick"@
                &&& exists|t: int, i: int|
                    #![trigger stands_at(session, t, i, action)]
                    stands_at(session, t, i, action) && forall|a: int, b: int|
                        0 <= a < session.turns.len() && 0 <= b < session.turns[a].len()
                            && comes_before(a, b, t, i) ==> !(is_open_turn_of(
                            #[trigger] session.turns[a][b],
                            session.local_player_cell_id,
                        ) && session.turns[a][b].kind == "pick"@)
            },
            None => forall|a: int, b: int|
                0 <= a < session.turns.len() && 0 <= b < session.turns[a].len() ==> !(
                is_open_turn_of(#[trigger] session.turns[a][b], session.local_player_cell_id)
                    && session.turns[a][b].kind == "pick"@),
        },
{
    let cell = session.local_player_cell_id;
    let (t, i) = lemma_first_place_of(session.turns, cell, Wanted::OpenPick);
    assert forall|a: int, b: int|
        0 <= a < session.turns.len() && 0 <= b < session.turns[a].len() && !is_wanted(
            #[trigger] session.turns[a][b],
            cell,
            Wanted::OpenPick,
        ) implies !(is_open_turn_of(session.turns[a][b], cell) && session.turns[a][b].kind
        == "pick"@) by {}
    if let Some(action) = session.prepick() {
        assert(stands_at(session, t, i, action));
    }
}

/// Picks and bans are made only in the phase for them. What the player may make is the first open
/// pick or ban of the player's that is in progress, if one is; else the first open one of the
/// first turn that is not over. There is none only where neither is there.
pub proof fn current_action_is_the_players_turn(session: SessionModel)
    ensures
        session.phase != "BAN_PICK"@ ==> session.current() is None,
        match session.current() {
            Some(action) => {
                &&& is_open_turn_of(action, session.local_player_cell_id)
                &&& exists|t: int, i: int|
                    #![trigger stands_at(session, t, i, action)]
                    stands_at(session, t, i, action) && if action.is_in_progress {
                        forall|a: int, b: int|
                            0 <= a < session.turns.len() && 0 <= b < session.turns[a].len()
                                && comes_before(a, b, t, i) && is_open_turn_of(
                                #[trigger] session.turns[a][b],
                                session.local_player_cell_id,
                            ) ==> !session.turns[a][b].is_in_progress
                    } else {
                        &&& forall|a: int, b: int|
                            0 <= a < t && 0 <= b < session.turns[a].len() ==> (
                            #[trigger] session.turns[a][b]).completed
                        &&& forall|a: int, b: int|
                            0 <= a < session.turns.len() && 0 <= b < session.turns[a].len()
                                && is_open_turn_of(
                                #[trigger] session.turns[a][b],
                                session.local_player_cell_id,
                            ) ==> !session.turns[a][b].is_in_progress
                    }
            },
            None => session.phase == "BAN_PICK"@ ==> forall|a: int, b: int|
                0 <= a < session.turns.len() && 0 <= b < session.turns[a].len() && is_open_turn_of(
                    #[trigger] session.turns[a][b],
                    session.local_player_cell_id,
                ) ==> {
                    &&& !session.turns[a][b].is_in_progress
                    &&& exists|c: int, d: int|
                        0 <= c < a && 0 <= d < session.turns[c].len() && !(
                        #[trigger] session.turns[c][d]).completed
                },
        },
{
    let cell = session.local_player_cell_id;
    let turns = session.turns;
    let (t, i) = lemma_first_place_of(turns, cell, Wanted::InProgress);
    let (u, j) = lemma_current_turn(turns, cell);
    assert forall|a: int, b: int|
        0 <= a < turns.len() && 0 <= b < turns[a].len() && is_open_turn_of(
            #[trigger] turns[a][b],
            cell,
        ) && !is_wanted(turns[a][b], cell, Wanted::InProgress)
        implies !turns[a][b].is_in_progress by {}
    if let Some(action) = session.current() {
        if first_of(turns, cell, Wanted::InProgress) is Some {
            assert(stands_at(session, t, i, action));
        } else {
            assert(stands_at(session, u, j, action));
            assert(!is_wanted(turns[u][j], cell, Wanted::InProgress));
        }
    } else if session.phase == "BAN_PICK"@ {
        assert forall|a: int, b: int|
            0 <= a < turns.len() && 0 <= b < turns[a].len() && is_open_turn_of(
                #[trigger] turns[a][b],
                cell,
            ) implies exists|c: int, d: int|
            0 <= c < a && 0 <= d < turns[c].len() && !(#[trigger] turns[c][d]).completed by {
            assert(is_wanted(turns[a][b], cell, Wanted::Open));
        }
    }
}

impl ActionModel {
    /// The action after a whole sequence of answers.
    pub open spec fn run(self, goal: Goal, replies: Seq<LeagueReplyModel>) -> ActionModel
        decreases replies.len(),
    {
        if replies.len() == 0 {
            self
        } else {
            self.run(goal, replies.drop_last()).after(goal, replies.last())
        }
    }
}

/// Whether the League client showed a champion select.
pub open spec fn was_shown(replies: Seq<LeagueReplyModel>, session: SessionModel) -> bool {
    replies.contains(LeagueReplyModel::Session(Some(session)))
}

/// Whether the League client listed a champion.
pub open spec fn was_listed(replies: Seq<LeagueReplyModel>, champion_id: i64) -> bool {
    exists|k: int| 0 <= k < replies.len() && lists(#[trigger] replies[k], champion_id)
}

/// Whether an answer of the League client lists a champion.
pub open spec fn lists(reply: LeagueReplyModel, champion_id: i64) -> bool {
    match reply {
        LeagueReplyModel::Ids(Some(ids)) => ids.contains(champion_id),
        LeagueReplyModel::Champions(Some(all)) => exists|k: int|
            0 <= k < all.len() && (#[trigger] all[k]).id == champion_id,
        _ => false,
    }
}

/// Whether somebody has banned a champion.
pub open spec fn was_banned(session: SessionModel, champion_id: i64) -> bool {
    exists|t: int, i: int|
        0 <= t < session.turns.len() && 0 <= i < session.turns[t].len() && (
        #[trigger] session.turns[t][i]).kind == "ban"@ && session.turns[t][i].completed
            && session.turns[t][i].champion_id == champion_id
}

/// Whether a request changes this action of a champion select, to this champion, and completes it
/// or not.
pub open spec fn changes(
    request: WriteModel,
    action: PickModel,
    champion_id: i64,
    completed: bool,
) -> bool {
    &&& request.method == Method::Patch
    &&& request.path == "/lol-champ-select/v1/session"@ + "/actions/"@ + signed_decimal(
        action.id as int,
    )
    &&& request.change == Some(ActionChange { champion_id, completed })
}

spec fn stays_on_course(
    model: ActionModel,
    goal: Goal,
    replies: Seq<LeagueReplyModel>,
) -> bool {
    match model {
        ActionModel::Bannable(session) => was_shown(replies, session) && goal is Select && (
        target_action(goal, session) matches Some(action) && action.kind == "ban"@),
        ActionModel::Champions(session) => was_shown(replies, session) && goal is Select && (
        target_action(goal, session) matches Some(action) && action.kind == "ban"@),
        ActionModel::Pickable(session) => was_shown(replies, session) && (goal is Select
            || goal is Prepick) && target_action(goal, session) is Some,
        ActionModel::Ready => goal is AcceptReadyCheck,
        ActionModel::Session => !(goal is AcceptReadyCheck),
        ActionModel::Write(request) => match goal {
            Goal::AcceptReadyCheck => request == accept_request(),
            Goal::Lock => exists|session: SessionModel| #[trigger]
                was_shown(replies, session) && (session.current() matches Some(action)
                    && action.champion_id > 0 && changes(
                    request,
                    action,
                    action.champion_id,
                    true,
                )),
            Goal::Select(id) => was_listed(replies, id) && exists|session: SessionModel| #[trigger]
                was_shown(replies, session) && !session.is_banned(id) && (target_action(
                    goal,
                    session,
                ) matches Some(action) && changes(request, action, id, false)),
            Goal::Prepick(id) => was_listed(replies, id) && exists|session: SessionModel| #[trigger]
                was_shown(replies, session) && !session.is_banned(id) && (
                session.prepick() matches Some(action) && changes(request, action, id, false)),
        },
        _ => true,
    }
}

proof fn lemma_listed_primary(ids: Seq<i64>, id: i64)
    requires
        primary_ids(ids).contains(id),
    ensures
        ids.contains(id),
        1 <= id < 10_000,
    decreases ids.len(),
{
    reveal(Seq::filter);
    let keep = |id: i64| is_primary(id);
    if ids.len() > 0 {
        let front = ids.drop_last();
        lemma_filter_push(front, keep, ids.last());
        assert(ids == front.push(ids.last()));
        let k = choose|k: int| 0 <= k < primary_ids(ids).len() && primary_ids(ids)[k] == id;
        if k < primary_ids(front).len() {
            assert(primary_ids(front)[k] == id);
            lemma_listed_primary(front, id);
            let n = choose|n: int| 0 <= n < front.len() && front[n] == id;
            assert(ids[n] == id);
        } else {
            assert(ids[ids.len() - 1] == id);
        }
    }
}

proof fn lemma_on_course(goal: Goal, replies: Seq<LeagueReplyModel>)
    ensures
        stays_on_course(action_begun(goal).run(goal, replies), goal, replies),
    decreases replies.len(),
{
    if replies.len() > 0 {
        let before = replies.drop_last();
        let last = replies.last();
        lemma_on_course(goal, before);
        let model = action_begun(goal).run(goal, before);
        let next = model.after(goal, last);
        assert forall|session: SessionModel| #[trigger] was_shown(before, session) implies was_shown(
            replies,
            session,
        ) by {
            let k = choose|k: int|
                0 <= k < before.len() && before[k] == LeagueReplyModel::Session(Some(session));
            assert(replies[k] == before[k]);
        }
        assert forall|id: i64| #[trigger] was_listed(before, id) implies was_listed(
            replies,
            id,
        ) by {
            let k = choose|k: int| 0 <= k < before.len() && lists(#[trigger] before[k], id);
            assert(replies[k] == before[k]);
        }
        assert(replies[replies.len() - 1] == last);
        assert(last matches LeagueReplyModel::Session(Some(session)) ==> was_shown(
            replies,
            session,
        ));
        let id = match goal {
            Goal::Select(id) => id,
            Goal::Prepick(id) => id,
            _ => 0,
        };
        assert(lists(last, id) ==> was_listed(replies, id)) by {
            if lists(last, id) {
                assert(lists(replies[replies.len() - 1], id));
            }
        }
        match last {
            LeagueReplyModel::Ids(Some(ids)) => {
                if primary_ids(ids).contains(id) {
                    lemma_listed_primary(ids, id);
                }
            },
            LeagueReplyModel::Champions(Some(all)) => {
                if primary_ids(ids_of(all)).contains(id) {
                    lemma_listed_primary(ids_of(all), id);
                    let n = choose|n: int| 0 <= n < ids_of(all).len() && ids_of(all)[n] == id;
                    assert(all[n].id == id);
                }
            },
            _ => {},
        }
        assert(model is Write && !(last is Written) ==> next == model);
    }
}

/// What the remote page may have written, whatever the League client answers.
///
/// To select or to prepare a champion changes an open action of the player's own, to the champion
/// that was chosen and that the League client listed and nobody banned, and never completes it; a
/// champion is prepared only at a pick. To lock completes the player's current action with the
/// champion that it has. To accept a ready check changes no action at all.
pub proof fn remote_page_writes_what_was_chosen(goal: Goal, replies: Seq<LeagueReplyModel>)
    ensures
        action_begun(goal).run(goal, replies) matches ActionModel::Write(request) ==> match goal {
            Goal::AcceptReadyCheck => {
                &&& request.method == Method::Post
                &&& request.path == "/lol-matchmaking/v1/ready-check"@ + "/accept"@
                &&& request.change is None
            },
            Goal::Lock => exists|session: SessionModel, action: PickModel|
                was_shown(replies, session) && #[trigger] is_players_action(session, action)
                    && session.phase == "BAN_PICK"@ && action.champion_id > 0 && changes(
                    request,
                    action,
                    action.champion_id,
                    true,
                ),
            Goal::Select(id) => {
                &&& id > 0
                &&& was_listed(replies, id)
                &&& exists|session: SessionModel, action: PickModel|
                    was_shown(replies, session) && #[trigger] is_players_action(session, action)
                        && !was_banned(session, id) && changes(request, action, id, false)
            },
            Goal::Prepick(id) => {
                &&& id > 0
                &&& was_listed(replies, id)
                &&& exists|session: SessionModel, action: PickModel|
                    was_shown(replies, session) && #[trigger] is_players_action(session, action)
                        && action.kind == "pick"@ && !was_banned(session, id) && changes(
                        request,
                        action,
                        id,
                        false,
                    )
            },
        },
{
    lemma_on_course(goal, replies);
    lemma_begun_positive(goal, replies);
    if let ActionModel::Write(request) = action_begun(goal).run(goal, replies) {
        match goal {
            Goal::AcceptReadyCheck => {},
            Goal::Lock => {
                let session = choose|session: SessionModel| #[trigger]
                    was_shown(replies, session) && (session.current() matches Some(action)
                        && action.champion_id > 0 && changes(
                        request,
                        action,
                        action.champion_id,
                        true,
                    ));
                lemma_players_action(session);
                assert(is_players_action(session, session.current()->Some_0));
            },
            Goal::Select(id) => {
                let session = choose|session: SessionModel| #[trigger]
                    was_shown(replies, session) && !session.is_banned(id) && (target_action(
                        goal,
                        session,
                    ) matches Some(action) && changes(request, action, id, false));
                lemma_players_action(session);
                lemma_banned(session, id);
                assert(is_players_action(session, target_action(goal, session)->Some_0));
            },
            Goal::Prepick(id) => {
                let session = choose|session: SessionModel| #[trigger]
                    was_shown(replies, session) && !session.is_banned(id) && (
                    session.prepick() matches Some(action) && changes(request, action, id, false));
                lemma_players_action(session);
                lemma_banned(session, id);
                assert(is_players_action(session, session.prepick()->Some_0));
            },
        }
    }
}

/// Whether an action is an open pick or ban of the player's in a champion select.
pub open spec fn is_players_action(session: SessionModel, action: PickModel) -> bool {
    &&& is_open_turn_of(action, session.local_player_cell_id)
    &&& exists|t: int, i: int| #[trigger] stands_at(session, t, i, action)
}

proof fn lemma_players_action(session: SessionModel)
    ensures
        session.current() matches Some(action) ==> is_players_action(session, action)
            && session.phase == "BAN_PICK"@,
        session.prepick() matches Some(action) ==> is_players_action(session, action)
            && action.kind == "pick"@,
{
    first_open_pick_is_prepared(session);
    current_action_is_the_players_turn(session);
}

proof fn lemma_banned(session: SessionModel, id: i64)
    ensures
        session.is_banned(id) == was_banned(session, id),
{
    if was_banned(session, id) {
        let (t, i) = choose|t: int, i: int|
            0 <= t < session.turns.len() && 0 <= i < session.turns[t].len() && (
            #[trigger] session.turns[t][i]).kind == "ban"@ && session.turns[t][i].completed
                && session.turns[t][i].champion_id == id;
        assert(bans(session.turns[t][i], id));
    }
    if session.is_banned(id) {
        let (t, i) = choose|t: int, i: int|
            0 <= t < session.turns.len() && 0 <= i < session.turns[t].len() && bans(
                #[trigger] session.turns[t][i],
                id,
            );
        assert(session.turns[t][i].kind == "ban"@);
    }
}

proof fn lemma_begun_positive(goal: Goal, replies: Seq<LeagueReplyModel>)
    ensures
        action_begun(goal).run(goal, replies) is Write ==> match goal {
            Goal::Select(id) => id > 0,
            Goal::Prepick(id) => id > 0,
            _ => true,
        },
    decreases replies.len(),
{
    if replies.len() > 0 {
        lemma_begun_positive(goal, replies.drop_last());
        lemma_refused_stays(goal, replies);
    }
}

proof fn lemma_refused_stays(goal: Goal, replies: Seq<LeagueReplyModel>)
    ensures
        action_begun(goal) is Done ==> action_begun(goal).run(goal, replies) == action_begun(goal),
    decreases replies.len(),
{
    if replies.len() > 0 {
        lemma_refused_stays(goal, replies.drop_last());
    }
}

/// What may be done is done: a champion that is listed and that nobody banned is prepared where the
/// player has an open pick, and selected where the player has an open pick and no open ban; a ready
/// check that awaits the player is accepted; and the champion of the only open action is locked
/// while it is in progress.
pub proof fn remote_page_can_act(
    goal: Goal,
    session: SessionModel,
    ids: Seq<i64>,
    check: ReadyCheckModel,
    t: int,
    i: int,
)
    requires
        0 <= t < session.turns.len(),
        0 <= i < session.turns[t].len(),
        is_open_turn_of(session.turns[t][i], session.local_player_cell_id),
        forall|a: int, b: int|
            0 <= a < session.turns.len() && 0 <= b < session.turns[a].len() && is_open_turn_of(
                #[trigger] session.turns[a][b],
                session.local_player_cell_id,
            ) ==> session.turns[a][b].kind == session.turns[t][i].kind,
    ensures
        ({
            let asked = seq![
                LeagueReplyModel::Connected(true),
                LeagueReplyModel::Phase(Some("ChampSelect"@)),
                LeagueReplyModel::Session(Some(session)),
            ];
            let listed = asked.push(LeagueReplyModel::Ids(Some(ids)));
            let action = session.turns[t][i];
            match goal {
                Goal::Prepick(id) => id > 0 && ids.contains(id) && !was_banned(session, id)
                    && action.kind == "pick"@ ==> action_begun(goal).run(goal, listed) is Write,
                Goal::Select(id) => id > 0 && ids.contains(id) && !was_banned(session, id)
                    && action.kind == "pick"@ ==> action_begun(goal).run(goal, listed) is Write,
                Goal::Lock => session.phase == "BAN_PICK"@ && action.is_in_progress
                    && action.champion_id > 0 && (forall|a: int, b: int|
                    0 <= a < session.turns.len() && 0 <= b < session.turns[a].len()
                        && is_open_turn_of(
                        #[trigger] session.turns[a][b],
                        session.local_player_cell_id,
                    ) ==> session.turns[a][b] == action) ==> (action_begun(goal).run(
                    goal,
                    asked,
                ) matches ActionModel::Write(request) && changes(
                    request,
                    action,
                    action.champion_id,
                    true,
                )),
                Goal::AcceptReadyCheck => check.state == "InProgress"@ && (
                check.player_response.len() == 0 || check.player_response == "None"@)
                    ==> action_begun(goal).run(
                    goal,
                    seq![
                        LeagueReplyModel::Connected(true),
                        LeagueReplyModel::Phase(Some("ReadyCheck"@)),
                        LeagueReplyModel::Ready(Some(check)),
                    ],
                ) is Write,
            }
        }),
{
    let asked = seq![
        LeagueReplyModel::Connected(true),
        LeagueReplyModel::Phase(Some("ChampSelect"@)),
        LeagueReplyModel::Session(Some(session)),
    ];
    let ready = seq![
        LeagueReplyModel::Connected(true),
        LeagueReplyModel::Phase(Some("ReadyCheck"@)),
        LeagueReplyModel::Ready(Some(check)),
    ];
    let listed = asked.push(LeagueReplyModel::Ids(Some(ids)));
    reveal_with_fuel(ActionModel::run, 5);
    assert(listed.drop_last() =~= asked);
    assert(asked.drop_last().drop_last().drop_last().len() == 0);
    assert(asked.drop_last().drop_last().last() == asked[0]);
    assert(asked.drop_last().last() == asked[1]);
    assert(ready.drop_last().drop_last().drop_last().len() == 0);
    assert(ready.drop_last().drop_last().last() == ready[0]);
    assert(ready.drop_last().last() == ready[1]);
    reveal_strlit("pick");
    reveal_strlit("ban");
    assert("pick"@.len() != "ban"@.len());
    lemma_players_action(session);
    first_open_pick_is_prepared(session);
    current_action_is_the_players_turn(session);
    match goal {
        Goal::Prepick(id) => {
            lemma_banned(session, id);
        },
        Goal::Select(id) => {
            lemma_banned(session, id);
            if let Some(action) = session.current() {
                let (a, b) = choose|a: int, b: int| #[trigger] stands_at(session, a, b, action);
                assert(session.turns[a][b].kind == session.turns[t][i].kind);
            }
        },
        Goal::Lock => {
            if let Some(action) = session.current() {
                let (a, b) = choose|a: int, b: int| #[trigger] stands_at(session, a, b, action);
                assert(session.turns[a][b] == action);
            }
        },
        _ => {},
    }
}

/// A request that was written succeeds exactly where the League client answers with a status of
/// success.
pub proof fn action_succeeds_where_league_agrees(
    goal: Goal,
    request: WriteModel,
    status: Option<u16>,
)
    ensures
        ActionModel::Write(request).after(goal, LeagueReplyModel::Written(status)) is Done,
        ActionModel::Write(request).after(goal, LeagueReplyModel::Written(status))
            == ActionModel::Done(Ok(())) <==> status is Some && 200 <= status->Some_0 < 300,
{
}

/// Why an action failed is told apart by its status: 502 where the League client gave no answer of
/// any use, 409 where it answered and the action does not fit or is refused.
pub proof fn failed_action_says_why(model: ActionModel, goal: Goal, reply: LeagueReplyModel)
    requires
        model !is Done,
        model matches ActionModel::Pickable(session) ==> target_action(goal, session) is Some && (
        goal is Select || goal is Prepick),
        model matches ActionModel::Bannable(session) ==> target_action(goal, session) is Some
            && goal is Select,
        model matches ActionModel::Champions(session) ==> target_action(goal, session) is Some
            && goal is Select,
    ensures
        model.after(goal, reply) matches ActionModel::Done(Err(error)) ==> {
            let useless = match reply {
                LeagueReplyModel::Connected(found) => !found,
                LeagueReplyModel::Phase(phase) => phase is None,
                LeagueReplyModel::Search(search) => search is None,
                LeagueReplyModel::Ready(check) => check is None,
                LeagueReplyModel::Session(session) => session is None,
                LeagueReplyModel::Ids(ids) => ids is None,
                LeagueReplyModel::Champions(all) => all is None,
                LeagueReplyModel::Written(status) => status is None,
            };
            error.status == if useless {
                502u16
            } else {
                409u16
            }
        },
{
}

/// What is shown as available are exactly the champions that are available and that nobody has
/// banned, and what is shown of the player's actions is what the player has: the kind of the
/// current one, the champions that are chosen, and whether a pick can be prepared.
pub proof fn champion_select_is_shown_as_it_is(session: SessionModel, available: Seq<i64>, id: i64)
    ensures
        ({
            let shown = select_of(session, available);
            &&& shown.game_id == session.game_id
            &&& shown.available_champion_ids.contains(id) <==> available.contains(id)
                && !was_banned(session, id)
            &&& shown.action_kind matches Some(kind) ==> exists|action: PickModel|
                #[trigger] is_players_action(session, action) && action.kind == kind
                    && session.phase == "BAN_PICK"@ && shown.selected_champion_id == (
                if action.champion_id > 0 {
                    Some(action.champion_id)
                } else {
                    None
                })
            &&& shown.action_kind is None ==> shown.selected_champion_id is None
            &&& shown.can_complete <==> shown.selected_champion_id is Some
            &&& shown.can_prepick <==> exists|action: PickModel|
                #[trigger] is_players_action(session, action) && action.kind == "pick"@
            &&& shown.prepick_champion_id matches Some(champion) ==> champion > 0
                && exists|action: PickModel| #[trigger]
                is_players_action(session, action) && action.kind == "pick"@ && action.champion_id
                    == champion
        }),
{
    lemma_players_action(session);
    first_open_pick_is_prepared(session);
    lemma_banned(session, id);
    lemma_unbanned(session, available, id);
    if let Some(action) = session.current() {
        assert(is_players_action(session, action));
    }
    if let Some(action) = session.prepick() {
        assert(is_players_action(session, action));
    } else {
        assert forall|action: PickModel| #[trigger] is_players_action(session, action)
            implies action.kind != "pick"@ by {
            let (t, i) = choose|t: int, i: int| #[trigger] stands_at(session, t, i, action);
            assert(session.turns[t][i] == action);
        }
    }
}

proof fn lemma_unbanned(session: SessionModel, available: Seq<i64>, id: i64)
    ensures
        available.filter(|id: i64| !session.is_banned(id)).contains(id) <==> available.contains(id)
            && !session.is_banned(id),
    decreases available.len(),
{
    let keep = |id: i64| !session.is_banned(id);
    reveal(Seq::filter);
    if available.len() > 0 {
        let front = available.drop_last();
        let last = available.last();
        lemma_unbanned(session, front, id);
        lemma_filter_push(front, keep, last);
        assert(available == front.push(last));
        let kept = front.filter(keep);
        assert(front.push(last).contains(id) <==> front.contains(id) || last == id) by {
            broadcast use vstd::seq_lib::group_seq_properties;

        }
        assert(kept.push(last).contains(id) <==> kept.contains(id) || last == id) by {
            broadcast use vstd::seq_lib::group_seq_properties;

        }
    }
}

impl SnapshotModel {
    /// The look after a whole sequence of answers.
    pub open spec fn run(self, replies: Seq<LeagueReplyModel>) -> SnapshotModel
        decreases replies.len(),
    {
        if replies.len() == 0 {
            self
        } else {
            self.run(replies.drop_last()).after(replies.last())
        }
    }
}

/// Whether what is shown of a game is what the League client answered: its phase; a time in the
/// queue only while a game is searched for; a ready check only one that awaits the player; and of a
/// champion select only one that it showed, with champions that it listed.
pub open spec fn is_answered(game: GameModel, replies: Seq<LeagueReplyModel>) -> bool {
    &&& replies.contains(LeagueReplyModel::Phase(Some(game.phase))) || game.phase == "Unavailable"@
        && game.message is Some
    &&& game.queue_time_seconds matches Some(seconds) ==> game.phase == "Matchmaking"@
        && replies.contains(LeagueReplyModel::Search(Some(Some(seconds))))
    &&& game.ready_check ==> game.phase == "ReadyCheck"@ && exists|check: ReadyCheckModel|
        #[trigger] replies.contains(LeagueReplyModel::Ready(Some(check))) && check.state
            == "InProgress"@ && (check.player_response.len() == 0 || check.player_response
            == "None"@)
    &&& game.champion_select matches Some(select) ==> game.phase == "ChampSelect"@ && game.message is None
        && exists|session: SessionModel, available: Seq<i64>|
        was_shown(replies, session) && select == #[trigger] select_of(session, available)
            && forall|id: i64| #[trigger] available.contains(id) ==> was_listed(replies, id)
}

spec fn look_on_course(model: SnapshotModel, replies: Seq<LeagueReplyModel>) -> bool {
    match model {
        SnapshotModel::Search { phase } => phase == "Matchmaking"@ && replies.contains(
            LeagueReplyModel::Phase(Some(phase)),
        ),
        SnapshotModel::Ready { phase } => phase == "ReadyCheck"@ && replies.contains(
            LeagueReplyModel::Phase(Some(phase)),
        ),
        SnapshotModel::Session { phase } => phase == "ChampSelect"@ && replies.contains(
            LeagueReplyModel::Phase(Some(phase)),
        ),
        SnapshotModel::Bannable { phase, session } => phase == "ChampSelect"@ && was_shown(
            replies,
            session,
        ) && replies.contains(LeagueReplyModel::Phase(Some(phase))),
        SnapshotModel::Champions { phase, session } => phase == "ChampSelect"@ && was_shown(
            replies,
            session,
        ) && replies.contains(LeagueReplyModel::Phase(Some(phase))),
        SnapshotModel::Pickable { phase, session } => phase == "ChampSelect"@ && was_shown(
            replies,
            session,
        ) && replies.contains(LeagueReplyModel::Phase(Some(phase))),
        SnapshotModel::Done(game) => is_answered(game, replies),
        _ => true,
    }
}

proof fn lemma_listed_by(replies: Seq<LeagueReplyModel>, available: Seq<i64>)
    requires
        replies.len() > 0,
        match replies.last() {
            LeagueReplyModel::Ids(Some(ids)) => available == ids || available == primary_ids(ids),
            LeagueReplyModel::Champions(Some(all)) => available == primary_ids(ids_of(all)),
            _ => false,
        },
    ensures
        forall|id: i64| #[trigger] available.contains(id) ==> was_listed(replies, id),
{
    let last = replies.last();
    assert forall|id: i64| #[trigger] available.contains(id) implies was_listed(replies, id) by {
        match last {
            LeagueReplyModel::Ids(Some(ids)) => {
                if available != ids {
                    lemma_listed_primary(ids, id);
                }
            },
            LeagueReplyModel::Champions(Some(all)) => {
                lemma_listed_primary(ids_of(all), id);
                let n = choose|n: int| 0 <= n < ids_of(all).len() && ids_of(all)[n] == id;
                assert(all[n].id == id);
            },
            _ => {},
        }
        assert(lists(replies[replies.len() - 1], id));
    }
}

/// What is shown of a game is what the League client answered, whatever it answers.
pub proof fn game_is_shown_as_answered(replies: Seq<LeagueReplyModel>)
    ensures
        SnapshotModel::Connect.run(replies) matches SnapshotModel::Done(game) ==> is_answered(
            game,
            replies,
        ),
{
    lemma_look_on_course(replies);
}

proof fn lemma_look_on_course(replies: Seq<LeagueReplyModel>)
    ensures
        look_on_course(SnapshotModel::Connect.run(replies), replies),
    decreases replies.len(),
{
    if replies.len() > 0 {
        let before = replies.drop_last();
        let last = replies.last();
        lemma_look_on_course(before);
        let model = SnapshotModel::Connect.run(before);
        assert forall|reply: LeagueReplyModel| #[trigger] before.contains(reply)
            implies replies.contains(reply) by {
            let k = choose|k: int| 0 <= k < before.len() && before[k] == reply;
            assert(replies[k] == reply);
        }
        assert(replies[replies.len() - 1] == last);
        assert(replies.contains(last));
        assert forall|id: i64| #[trigger] was_listed(before, id) implies was_listed(
            replies,
            id,
        ) by {
            let k = choose|k: int| 0 <= k < before.len() && lists(#[trigger] before[k], id);
            assert(replies[k] == before[k]);
        }
        match (model, last) {
            (SnapshotModel::Bannable { session, .. }, LeagueReplyModel::Ids(Some(ids))) => {
                lemma_listed_by(replies, primary_ids(ids));
                assert(select_of(session, primary_ids(ids)) == select_of(
                    session,
                    primary_ids(ids),
                ));
            },
            (SnapshotModel::Champions { session, .. }, LeagueReplyModel::Champions(Some(all))) => {
                lemma_listed_by(replies, primary_ids(ids_of(all)));
                assert(select_of(session, primary_ids(ids_of(all))) == select_of(
                    session,
                    primary_ids(ids_of(all)),
                ));
            },
            (SnapshotModel::Pickable { session, .. }, LeagueReplyModel::Ids(Some(ids))) => {
                lemma_listed_by(replies, ids);
                assert(select_of(session, ids) == select_of(session, ids));
            },
            (SnapshotModel::Done(game), _) => {
                if let Some(select) = game.champion_select {
                    let (session, available) = choose|session: SessionModel, available: Seq<i64>|
                        was_shown(before, session) && select == #[trigger] select_of(
                            session,
                            available,
                        ) && forall|id: i64| #[trigger]
                            available.contains(id) ==> was_listed(before, id);
                    assert(was_shown(replies, session));
                    assert(select == select_of(session, available));
                }
            },
            _ => {},
        }
    }
}

/// A look at a game that is answered shows what was asked for: the seconds in the queue, the ready
/// check that awaits the player, and the champion select with the champions that can be picked, or
/// banned where the player is to ban.
pub proof fn answered_look_shows_the_game(
    phase: Seq<char>,
    seconds: Option<u64>,
    check: ReadyCheckModel,
    session: SessionModel,
    ids: Seq<i64>,
    id: i64,
)
    ensures
        ({
            let known = SnapshotModel::Connect.after(LeagueReplyModel::Connected(true)).after(
                LeagueReplyModel::Phase(Some(phase)),
            );
            let select = known.after(LeagueReplyModel::Session(Some(session))).after(
                LeagueReplyModel::Ids(Some(ids)),
            );
            &&& phase == "Matchmaking"@ ==> (known.after(
                LeagueReplyModel::Search(Some(seconds)),
            ) matches SnapshotModel::Done(game) && game.queue_time_seconds == seconds)
            &&& phase == "ReadyCheck"@ ==> (known.after(
                LeagueReplyModel::Ready(Some(check)),
            ) matches SnapshotModel::Done(game) && game.ready_check == (check.state
                == "InProgress"@ && (check.player_response.len() == 0 || check.player_response
                == "None"@)))
            &&& phase == "ChampSelect"@ && ids.contains(id) && !was_banned(session, id)
                && !(session.current() matches Some(action) && action.kind == "ban"@) ==> (
            select matches SnapshotModel::Done(game) && (
            game.champion_select matches Some(shown) && shown.available_champion_ids.contains(id)))
            &&& phase == "ChampSelect"@ && ids.contains(id) && 1 <= id < 10_000 && !was_banned(
                session,
                id,
            ) && (session.current() matches Some(action) && action.kind == "ban"@) ==> (
            select matches SnapshotModel::Done(game) && (
            game.champion_select matches Some(shown) && shown.available_champion_ids.contains(id)))
        }),
{
    reveal_strlit("Matchmaking");
    reveal_strlit("ReadyCheck");
    reveal_strlit("ChampSelect");
    assert("Matchmaking"@[0] != "ReadyCheck"@[0] && "Matchmaking"@[0] != "ChampSelect"@[0]
        && "ReadyCheck"@[0] != "ChampSelect"@[0]);
    champion_select_is_shown_as_it_is(session, ids, id);
    champion_select_is_shown_as_it_is(session, primary_ids(ids), id);
    if ids.contains(id) && is_primary(id) {
        lemma_keeps_primary(ids, id);
    }
}

proof fn lemma_keeps_primary(ids: Seq<i64>, id: i64)
    requires
        ids.contains(id),
        is_primary(id),
    ensures
        primary_ids(ids).contains(id),
    decreases ids.len(),
{
    reveal(Seq::filter);
    let keep = |id: i64| is_primary(id);
    let front = ids.drop_last();
    lemma_filter_push(front, keep, ids.last());
    assert(ids == front.push(ids.last()));
    if ids.last() == id {
        assert(primary_ids(ids).last() == id);
    } else {
        let n = choose|n: int| 0 <= n < ids.len() && ids[n] == id;
        assert(front[n] == id);
        lemma_keeps_primary(front, id);
        let k = choose|k: int| 0 <= k < primary_ids(front).len() && primary_ids(front)[k] == id;
        assert(primary_ids(ids)[k] == id);
    }
}

/// Where the player is to ban, the champions that can be banned are asked for, or all champions
/// where the League client does not list any; else those that can be picked.
pub proof fn ban_turn_asks_for_bans(phase: Seq<char>, session: SessionModel, ids: Option<Seq<i64>>, id: i64)
    requires
        id > 0,
    ensures
        ({
            let look = SnapshotModel::Session { phase }.after(
                LeagueReplyModel::Session(Some(session)),
            );
            let select = ActionModel::Session.after(
                Goal::Select(id),
                LeagueReplyModel::Session(Some(session)),
            );
            match session.current() {
                Some(action) => if action.kind == "ban"@ {
                    &&& look == SnapshotModel::Bannable { phase, session }
                    &&& select == ActionModel::Bannable(session)
                } else {
                    &&& look == SnapshotModel::Pickable { phase, session }
                    &&& select == ActionModel::Pickable(session)
                },
                None => look == SnapshotModel::Pickable { phase, session } && select !is Bannable,
            }
        }),
        ids is None || ids == Some(Seq::<i64>::empty()) ==> {
            &&& SnapshotModel::Bannable { phase, session }.after(LeagueReplyModel::Ids(ids))
                == SnapshotModel::Champions { phase, session }
            &&& ActionModel::Bannable(session).after(Goal::Select(id), LeagueReplyModel::Ids(ids))
                == ActionModel::Champions(session)
        },
{
    lemma_players_action(session);
    reveal_strlit("pick");
    reveal_strlit("ban");
    assert("pick"@.len() != "ban"@.len());
    reveal(Seq::filter);
    assert(primary_ids(Seq::<i64>::empty()).len() == 0);
}

/// Only a search that is going on has a time, and that is the time that it reports.
pub proof fn only_a_running_search_has_a_time(search: MatchmakingSearch)
    ensures
        search.elapsed() is Some <==> search.search_state@ == "Searching"@
            && search.seconds_in_queue is Some,
        search.elapsed() is Some ==> search.elapsed() == search.seconds_in_queue,
{
}

/// The League client's own list of what can be banned counts once it names a champion, and then
/// just for the champions that it names.
pub proof fn listed_bans_are_champions(ids: Seq<i64>, id: i64)
    ensures
        match listed_bans(Some(ids)) {
            Some(listed) => listed.len() > 0 && (listed.contains(id) <==> ids.contains(id) && 1 <= id
                && id < 10_000),
            None => !(ids.contains(id) && 1 <= id && id < 10_000),
        },
        listed_bans(None) is None,
{
    lemma_kept(ids, |id: i64| is_primary(id), id);
}

proof fn lemma_kept(ids: Seq<i64>, keep: spec_fn(i64) -> bool, id: i64)
    ensures
        ids.filter(keep).contains(id) <==> ids.contains(id) && keep(id),
    decreases ids.len(),
{
    reveal(Seq::filter);
    if ids.len() > 0 {
        let front = ids.drop_last();
        lemma_kept(front, keep, id);
        let kept = front.filter(keep);
        if front.contains(id) {
            let k = choose|k: int| 0 <= k < front.len() && front[k] == id;
            assert(ids[k] == id);
        }
        if ids.contains(id) {
            let k = choose|k: int| 0 <= k < ids.len() && ids[k] == id;
            if k < front.len() {
                assert(front[k] == id);
            }
        }
        assert(ids[ids.len() - 1] == ids.last());
        if kept.contains(id) {
            let k = choose|k: int| 0 <= k < kept.len() && kept[k] == id;
            assert(kept.push(ids.last())[k] == id);
        }
        assert(kept.push(ids.last())[kept.len() as int] == ids.last());
        if kept.push(ids.last()).contains(id) {
            let k = choose|k: int|
                0 <= k < kept.push(ids.last()).len() && kept.push(ids.last())[k] == id;
            if k < kept.len() {
                assert(kept[k] == id);
            }
        }
    }
}

/// A champion's icon is asked for as a PNG by the champion's number.
pub proof fn champion_icon_goes_by_its_number(champion_id: i64)
    requires
        champion_id >= 0,
    ensures
        icon_address(champion_id) == "/lol-game-data/assets/v1/champion-icons/"@ + decimal(
            champion_id as nat,
        ) + ".png"@,
{
}

/// Bytes count as a PNG image exactly where they begin with its eight-byte signature.
pub proof fn png_begins_with_its_signature(bytes: Seq<u8>)
    ensures
        is_png(bytes) <==> bytes.len() >= 8 && bytes[0] == 0x89 && bytes[1] == 0x50 && bytes[2]
            == 0x4e && bytes[3] == 0x47 && bytes[4] == 0x0d && bytes[5] == 0x0a && bytes[6] == 0x1a
            && bytes[7] == 0x0a,
{
    let signature = seq![0x89u8, 0x50, 0x4e, 0x47, 0x0d, 0x0a, 0x1a, 0x0a];
    if bytes.len() >= 8 && bytes[0] == 0x89 && bytes[1] == 0x50 && bytes[2] == 0x4e && bytes[3]
        == 0x47 && bytes[4] == 0x0d && bytes[5] == 0x0a && bytes[6] == 0x1a && bytes[7] == 0x0a {
        assert(bytes.take(8) =~= signature);
    }
    if is_png(bytes) {
        assert(forall|k: int| 0 <= k < 8 ==> bytes[k] == #[trigger] signature[k]) by {
            assert(forall|k: int| 0 <= k < 8 ==> bytes[k] == bytes.take(8)[k]);
        }
        assert(signature[0] == 0x89 && signature[1] == 0x50 && signature[2] == 0x4e && signature[3]
            == 0x47 && signature[4] == 0x0d && signature[5] == 0x0a && signature[6] == 0x1a
            && signature[7] == 0x0a);
    }
}

} // verus!
