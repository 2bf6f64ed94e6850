use swapper::remote::catalog::{
    catalog_entries, fallback_ban_candidates, ChampionSummary, RecommendedPositions,
};
use swapper::remote::control::{
    accept_ready_check, ban_candidates, catalog, icon, icon_path, lock_champion, prepick_champion,
    ready_check_available, select_champion, snapshot, ActionError, ActionResult, ActionRun,
    ActionStep, ChampionAction, ChampionSession, ChampionTimer, GameSnapshot, LeagueQuery,
    LeagueReply, MatchmakingSearch, Method, ReadyCheck, SnapshotStep,
};

fn summary(id: i64, name: &str) -> ChampionSummary {
    ChampionSummary { id, name: name.into() }
}

/// A search from the JSON that the League client answers with.
fn search(json: &str) -> MatchmakingSearch {
    let value: serde_json::Value = serde_json::from_str(json).unwrap();
    MatchmakingSearch {
        search_state: value["searchState"].as_str().unwrap().to_string(),
        seconds_in_queue: value
            .get("timeInQueue")
            .and_then(|seconds| seconds.as_f64())
            .filter(|seconds| seconds.is_finite() && *seconds >= 0.0)
            .map(|seconds| seconds.floor() as u64),
    }
}

/// A champion select from the JSON that the League client answers with.
fn session(json: &str) -> ChampionSession {
    let value: serde_json::Value = serde_json::from_str(json).unwrap();
    let action = |action: &serde_json::Value| ChampionAction {
        id: action["id"].as_i64().unwrap(),
        actor_cell_id: action["actorCellId"].as_i64().unwrap(),
        champion_id: action["championId"].as_i64().unwrap(),
        completed: action["completed"].as_bool().unwrap(),
        is_in_progress: action.get("isInProgress").and_then(|v| v.as_bool()).unwrap_or(false),
        kind: action["type"].as_str().unwrap().to_string(),
    };
    ChampionSession {
        game_id: value["gameId"].as_i64().unwrap(),
        local_player_cell_id: value["localPlayerCellId"].as_i64().unwrap(),
        actions: value["actions"]
            .as_array()
            .unwrap()
            .iter()
            .map(|turn| turn.as_array().unwrap().iter().map(action).collect())
            .collect(),
        timer: ChampionTimer { phase: value["timer"]["phase"].as_str().unwrap().to_string() },
    }
}

const BANNING: &str = r#"{
    "gameId": 42,
    "localPlayerCellId": 2,
    "timer": {"phase": "BAN_PICK"},
    "actions": [
        [{"id": 1, "actorCellId": 3, "championId": 5, "completed": true, "type": "ban"}],
        [{"id": 2, "actorCellId": 2, "championId": 0, "completed": false, "type": "ban"}],
        [{"id": 3, "actorCellId": 2, "championId": 157, "completed": false, "type": "pick"}]
    ]
}"#;

const PLANNING: &str = r#"{
    "gameId": 42,
    "localPlayerCellId": 2,
    "timer": {"phase": "PLANNING"},
    "actions": [[{"id": 3, "actorCellId": 2, "championId": 0, "completed": false, "type": "pick"}]]
}"#;

#[test]
fn queue_time_only_uses_a_live_search_elapsed_seconds() {
    let searching = search(r#"{"searchState": "Searching", "timeInQueue": 125.8}"#);
    let found = search(r#"{"searchState": "Found", "timeInQueue": 126.0}"#);
    let missing = search(r#"{"searchState": "Searching"}"#);
    assert_eq!(searching.elapsed_seconds(), Some(125));
    assert_eq!(found.elapsed_seconds(), None);
    assert_eq!(missing.elapsed_seconds(), None);
}

#[test]
fn catalog_omits_duplicate_variants_without_portraits() {
    let summaries = vec![summary(103, "Ahri"), summary(60103, "Ahri"), summary(266, "Aatrox")];
    let champions = catalog_entries(&summaries, &Vec::new());
    assert_eq!(champions.iter().map(|entry| entry.id).collect::<Vec<_>>(), vec![266, 103]);
}

#[test]
fn ban_candidates_fall_back_to_primary_champions_when_lcu_list_is_empty() {
    let summaries = vec![summary(103, "Ahri"), summary(60103, "Ahri"), summary(266, "Aatrox")];
    assert_eq!(fallback_ban_candidates(&summaries), vec![103, 266]);
}

#[test]
fn current_turn_allows_the_local_ban_and_prepares_a_later_pick() {
    let session = session(BANNING);
    assert_eq!(session.current_action().map(|action| action.id), Some(2));
    assert_eq!(session.prepick_action().map(|action| action.id), Some(3));
}

#[test]
fn in_progress_ban_wins_over_an_earlier_unfinished_turn() {
    let session = session(
        r#"{
            "gameId": 42,
            "localPlayerCellId": 2,
            "timer": {"phase": "BAN_PICK"},
            "actions": [
                [{"id": 1, "actorCellId": 3, "championId": 0, "completed": false, "type": "ban", "isInProgress": false}],
                [{"id": 2, "actorCellId": 2, "championId": 0, "completed": false, "type": "ban", "isInProgress": true}]
            ]
        }"#,
    );
    assert_eq!(session.current_action().map(|action| action.id), Some(2));
}

#[test]
fn planning_phase_has_no_current_action_but_can_pre_pick() {
    let session = session(PLANNING);
    assert!(session.current_action().is_none());
    assert_eq!(session.prepick_action().map(|action| action.id), Some(3));
}

#[test]
fn ready_check_cannot_be_accepted_twice() {
    let pending = ReadyCheck { state: "InProgress".into(), player_response: "None".into() };
    let accepted = ReadyCheck { state: "InProgress".into(), player_response: "Accepted".into() };
    assert!(ready_check_available(&pending));
    assert!(!ready_check_available(&accepted));
    let silent = ReadyCheck { state: "InProgress".into(), player_response: String::new() };
    assert!(ready_check_available(&silent));
}

#[test]
fn the_catalog_is_sorted_by_name_and_stable() {
    let summaries = vec![
        summary(4, "Zed"),
        summary(1, "Zed"),
        summary(3, "Nunu & Willump"),
        summary(2, "Nunu"),
        summary(5, "Ängel"),
        summary(0, "None"),
    ];
    let positions = vec![RecommendedPositions {
        key: "2".into(),
        recommended_positions: vec!["JUNGLE".into()],
    }];
    let champions = catalog(Some(summaries), Some(positions)).unwrap();
    assert_eq!(champions.iter().map(|c| c.id).collect::<Vec<_>>(), vec![2, 3, 4, 1, 5]);
    assert_eq!(champions[0].positions, vec!["JUNGLE".to_string()]);
    assert!(champions[1].positions.is_empty());
    assert_eq!(catalog(None, None), Err(ActionError::unavailable()));
}

#[test]
fn unusable_ban_lists_are_not_trusted() {
    assert_eq!(ban_candidates(&Some(vec![0, 1, 9_999, 10_000])), Some(vec![1, 9_999]));
    assert_eq!(ban_candidates(&Some(vec![0, -1])), None);
    assert_eq!(ban_candidates(&None), None);
}

fn look(replies: Vec<LeagueReply>) -> GameSnapshot {
    let mut step = snapshot();
    for reply in replies {
        step = step.proceed(reply);
    }
    match step {
        SnapshotStep::Done(snapshot) => snapshot,
        step => panic!("{:?}", step.query()),
    }
}

fn in_phase(phase: &str) -> Vec<LeagueReply> {
    vec![LeagueReply::Connected(true), LeagueReply::Phase(Some(phase.to_string()))]
}

#[test]
fn snapshots_explain_what_is_missing() {
    let gone = look(vec![LeagueReply::Connected(false)]);
    assert_eq!(gone.phase, "Unavailable");
    assert_eq!(gone.message.as_deref(), Some("League Client is not connected."));
    let mute = look(vec![LeagueReply::Connected(true), LeagueReply::Phase(None)]);
    assert_eq!(mute.message.as_deref(), Some("League Client state is unavailable."));
    let mut replies = in_phase("ReadyCheck");
    replies.push(LeagueReply::Ready(None));
    assert_eq!(look(replies).message.as_deref(), Some("Ready check details are unavailable."));
    let mut replies = in_phase("ChampSelect");
    replies.push(LeagueReply::Session(None));
    assert_eq!(look(replies).message.as_deref(), Some("Champion select details are unavailable."));
    let mut replies = in_phase("ChampSelect");
    replies.push(LeagueReply::Session(Some(session(PLANNING))));
    replies.push(LeagueReply::Ids(None));
    let shown = look(replies);
    assert_eq!(shown.message.as_deref(), Some("Available champion details are unavailable."));
    assert!(shown.champion_select.is_none());
}

#[test]
fn snapshots_show_each_phase() {
    assert_eq!(look(in_phase("Lobby")).phase, "Lobby");
    let mut replies = in_phase("Matchmaking");
    replies.push(LeagueReply::Search(Some(search(
        r#"{"searchState": "Searching", "timeInQueue": 9.9}"#,
    ))));
    assert_eq!(look(replies).queue_time_seconds, Some(9));
    let mut replies = in_phase("ReadyCheck");
    replies.push(LeagueReply::Ready(Some(ReadyCheck {
        state: "InProgress".into(),
        player_response: "None".into(),
    })));
    assert!(look(replies).ready_check);
}

#[test]
fn snapshots_of_a_ban_fall_back_to_all_champions() {
    let mut replies = in_phase("ChampSelect");
    replies.push(LeagueReply::Session(Some(session(BANNING))));
    replies.push(LeagueReply::Ids(Some(Vec::new())));
    replies.push(LeagueReply::Champions(Some(vec![summary(5, "a"), summary(7, "b")])));
    let shown = look(replies).champion_select.unwrap();
    assert_eq!(shown.game_id, 42);
    assert_eq!(shown.action_kind.as_deref(), Some("ban"));
    assert_eq!(shown.selected_champion_id, None);
    assert_eq!(shown.prepick_champion_id, Some(157));
    assert!(!shown.can_complete);
    assert!(shown.can_prepick);
    assert_eq!(shown.available_champion_ids, vec![7]);
}

#[test]
fn snapshots_of_a_pick_use_the_pickable_list() {
    let mut replies = in_phase("ChampSelect");
    replies.push(LeagueReply::Session(Some(session(PLANNING))));
    replies.push(LeagueReply::Ids(Some(vec![60_103, 3])));
    let shown = look(replies).champion_select.unwrap();
    assert_eq!(shown.available_champion_ids, vec![60_103, 3]);
    assert_eq!(shown.action_kind, None);
}

fn act(run: ActionRun, replies: Vec<LeagueReply>) -> ActionRun {
    let mut run = run;
    for reply in replies {
        run = run.proceed(reply);
    }
    run
}

fn refusal(run: &ActionRun) -> (u16, String) {
    match &run.step {
        ActionStep::Done(Err(error)) => (error.status, error.message.clone()),
        _ => panic!("{:?}", run.query()),
    }
}

#[test]
fn ready_checks_are_accepted_while_they_wait() {
    let mut replies = in_phase("ReadyCheck");
    replies.push(LeagueReply::Ready(Some(ReadyCheck {
        state: "InProgress".into(),
        player_response: "None".into(),
    })));
    let run = act(accept_ready_check(), replies);
    match run.query() {
        LeagueQuery::Write(request) => {
            assert_eq!(request.path, "/lol-matchmaking/v1/ready-check/accept");
            assert_eq!(request.method, Method::Post);
            assert!(request.change.is_none());
        }
        query => panic!("{query:?}"),
    }
    let done = run.proceed(LeagueReply::Written(Some(204)));
    assert!(matches!(done.step, ActionStep::Done(Ok(()))));
    let late = act(accept_ready_check(), in_phase("Lobby"));
    assert_eq!(refusal(&late), (409, "There is no active ready check.".to_string()));
    let mut replies = in_phase("ReadyCheck");
    replies.push(LeagueReply::Ready(Some(ReadyCheck {
        state: "InProgress".into(),
        player_response: "Accepted".into(),
    })));
    assert_eq!(
        refusal(&act(accept_ready_check(), replies)).1,
        "This ready check is no longer awaiting your response."
    );
}

#[test]
fn champions_are_selected_for_the_current_ban() {
    let mut replies = in_phase("ChampSelect");
    replies.push(LeagueReply::Session(Some(session(BANNING))));
    replies.push(LeagueReply::Ids(Some(vec![5, 7])));
    let run = act(select_champion(7), replies);
    match run.query() {
        LeagueQuery::Write(request) => {
            assert_eq!(request.path, "/lol-champ-select/v1/session/actions/2");
            assert_eq!(request.method, Method::Patch);
            let change = request.change.unwrap();
            assert_eq!((change.champion_id, change.completed), (7, false));
        }
        query => panic!("{query:?}"),
    }
    assert_eq!(
        refusal(&run.proceed(LeagueReply::Written(Some(500)))).1,
        "League rejected this action. Refresh the page and try again."
    );
    let mut replies = in_phase("ChampSelect");
    replies.push(LeagueReply::Session(Some(session(BANNING))));
    replies.push(LeagueReply::Ids(Some(vec![5, 7])));
    assert_eq!(
        refusal(&act(select_champion(5), replies)).1,
        "That champion is not currently available."
    );
    let mut replies = in_phase("ChampSelect");
    replies.push(LeagueReply::Session(Some(session(BANNING))));
    replies.push(LeagueReply::Ids(None));
    replies.push(LeagueReply::Champions(None));
    assert_eq!(refusal(&act(select_champion(7), replies)).0, 502);
}

#[test]
fn champions_are_prepicked_and_locked() {
    let mut replies = in_phase("ChampSelect");
    replies.push(LeagueReply::Session(Some(session(PLANNING))));
    replies.push(LeagueReply::Ids(Some(vec![9])));
    let run = act(prepick_champion(9), replies);
    assert!(matches!(run.query(), LeagueQuery::Write(_)));
    assert_eq!(refusal(&run.proceed(LeagueReply::Written(None))).0, 502);
    let mut replies = in_phase("ChampSelect");
    replies.push(LeagueReply::Session(Some(session(PLANNING))));
    replies.push(LeagueReply::Ids(Some(vec![8])));
    assert_eq!(
        refusal(&act(prepick_champion(9), replies)).1,
        "That champion is not currently pickable."
    );
    let mut replies = in_phase("ChampSelect");
    replies.push(LeagueReply::Session(Some(session(PLANNING))));
    assert_eq!(refusal(&act(lock_champion(), replies)).1, "It is not your pick or ban turn.");
    let mut replies = in_phase("ChampSelect");
    replies.push(LeagueReply::Session(Some(session(BANNING))));
    assert_eq!(refusal(&act(lock_champion(), replies)).1, "Select a champion before confirming.");
    let mut ready = session(BANNING);
    ready.actions[1][0].champion_id = 12;
    let mut replies = in_phase("ChampSelect");
    replies.push(LeagueReply::Session(Some(ready)));
    let run = act(lock_champion(), replies);
    match run.query() {
        LeagueQuery::Write(request) => {
            let change = request.change.unwrap();
            assert_eq!((change.champion_id, change.completed), (12, true));
        }
        query => panic!("{query:?}"),
    }
}

#[test]
fn actions_that_do_not_fit_are_refused() {
    assert_eq!(refusal(&select_champion(0)), (409, "Choose a champion first.".to_string()));
    assert_eq!(refusal(&prepick_champion(-1)).1, "Choose a champion first.");
    assert_eq!(refusal(&act(lock_champion(), vec![LeagueReply::Connected(false)])).0, 502);
    assert_eq!(
        refusal(&act(lock_champion(), in_phase("Lobby"))).1,
        "Champion select is not active."
    );
    let empty = || {
        session(
            r#"{"gameId": 1, "localPlayerCellId": 2, "timer": {"phase": "BAN_PICK"}, "actions": []}"#,
        )
    };
    let mut replies = in_phase("ChampSelect");
    replies.push(LeagueReply::Session(Some(empty())));
    assert_eq!(refusal(&act(select_champion(7), replies)).1, "No pick or ban action is available.");
    let mut replies = in_phase("ChampSelect");
    replies.push(LeagueReply::Session(Some(empty())));
    assert_eq!(refusal(&act(prepick_champion(7), replies)).1, "There is no pending pick action.");
}

#[test]
fn champion_icons_are_checked() {
    assert_eq!(icon_path(103).unwrap(), "/lol-game-data/assets/v1/champion-icons/103.png");
    assert_eq!(icon_path(10_000).unwrap_err().message, "Unknown champion.");
    assert!(icon_path(0).is_err());
    let png = b"\x89PNG\r\n\x1a\nrest".to_vec();
    assert_eq!(icon(Some(png.clone())), Ok(png.clone()));
    assert!(icon(Some(b"GIF89a..".to_vec())).is_err());
    assert!(icon(Some(Vec::new())).is_err());
    assert!(icon(None).is_err());
    let mut large = png;
    large.resize(512 * 1024, 0);
    assert!(icon(Some(large.clone())).is_ok());
    large.push(0);
    assert!(icon(Some(large)).is_err());
}

#[test]
fn results_carry_their_message() {
    assert!(ActionResult::success().ok);
    let error = ActionResult::error("no");
    assert!(!error.ok);
    assert_eq!(error.message.as_deref(), Some("no"));
}
