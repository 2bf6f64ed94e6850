use swapper::detection::{begin, DetectAction, DetectEvent, DetectRun, LeagueSearch};
use swapper::identity::{CurrentSummoner, Detection};
use swapper::lcu::LcuEndpoint;
use swapper::riot_client::{Endpoint, UserInfoReply};
use swapper::windows::process::SnapshotError;

const PUUID: &str = "12345678-1234-1234-1234-123456789abc";

fn riot_found() -> DetectEvent {
    DetectEvent::Riot(Some(Ok(Some(Endpoint { port: 5, password: "p".into() }))))
}

fn signed_in() -> DetectEvent {
    let info = format!(
        r#"{{"sub":"{PUUID}","acct":{{"game_name":"Player","tag_line":"EUW"}},"lol":{{"cpid":"euw1"}},"lol_account":{{"profile_icon":4}}}}"#
    );
    DetectEvent::Answer(UserInfoReply::Body(200, Some(info)))
}

fn league_found() -> DetectEvent {
    DetectEvent::League(LeagueSearch::Found(LcuEndpoint {
        port: 6,
        password: "q".into(),
        protocol: "https".into(),
    }))
}

fn summoner(puuid: &str, icon: Option<i64>) -> DetectEvent {
    DetectEvent::Summoner(Some(CurrentSummoner {
        puuid: puuid.into(),
        game_name: "Player".into(),
        tag_line: "EUW".into(),
        profile_icon_id: icon,
    }))
}

fn running() -> DetectEvent {
    DetectEvent::Running(Some(Ok(true)))
}

fn after(events: Vec<DetectEvent>) -> DetectRun {
    events.into_iter().fold(begin(), |run, event| run.proceed(event))
}

fn detected(events: Vec<DetectEvent>) -> Detection {
    match after(events) {
        DetectRun::Done(detection) => detection,
        _ => panic!("still asking"),
    }
}

fn platform() -> DetectEvent {
    DetectEvent::Platform(Some((200, Some("\"EUW1\"".into()))))
}

#[test]
fn a_client_that_cannot_be_asked_says_nothing() {
    assert_eq!(detected(vec![DetectEvent::Riot(None)]), Detection::Unavailable);
    assert_eq!(detected(vec![DetectEvent::Riot(Some(Ok(None)))]), Detection::NotRunning);
    let unreadable = DetectEvent::Riot(Some(Err(SnapshotError { code: 5 })));
    assert_eq!(detected(vec![unreadable]), Detection::Unavailable);
    let silent = DetectEvent::Answer(UserInfoReply::Silent);
    assert_eq!(detected(vec![riot_found(), silent]), Detection::Unavailable);
    let signed_out = DetectEvent::Answer(UserInfoReply::Unreadable(404));
    assert_eq!(detected(vec![riot_found(), signed_out]), Detection::NotReady);
}

#[test]
fn league_is_optional() {
    for event in [
        DetectEvent::Running(None),
        DetectEvent::Running(Some(Ok(false))),
        DetectEvent::Running(Some(Err(SnapshotError { code: 5 }))),
    ] {
        match detected(vec![riot_found(), signed_in(), event]) {
            Detection::Identified(identity) => {
                assert_eq!(identity.puuid, PUUID);
                assert_eq!(identity.region.as_deref(), Some("EUW"));
                assert_eq!(identity.profile_icon_id, Some(4));
                assert_eq!(identity.icon_data_url, None);
            }
            other => panic!("{other:?}"),
        }
    }
}

#[test]
fn league_adds_the_image_of_the_same_account() {
    let run = after(vec![
        riot_found(),
        signed_in(),
        running(),
        league_found(),
        summoner(PUUID, Some(9)),
        platform(),
    ]);
    match run.action() {
        DetectAction::FetchIcon { endpoint, path } => {
            assert_eq!(endpoint.port, 6);
            assert_eq!(path, "/lol-game-data/assets/v1/profile-icons/9.jpg");
        }
        _ => panic!("no image is asked for"),
    }
    let run = run.proceed(DetectEvent::Icon(Some((404, Some(vec![1])))));
    match run.action() {
        DetectAction::FetchIcon { path, .. } => {
            assert_eq!(path, "/lol-game-data/assets/v1/profile-icons/9.png");
        }
        _ => panic!("no second image is asked for"),
    }
    match run.proceed(DetectEvent::Icon(Some((200, Some(vec![0]))))) {
        DetectRun::Done(Detection::Identified(identity)) => {
            assert_eq!(identity.profile_icon_id, Some(9));
            assert_eq!(identity.icon_data_url.as_deref(), Some("data:image/png;base64,AA=="));
        }
        _ => panic!("not identified"),
    }
}

#[test]
fn another_league_account_changes_nothing() {
    let other = detected(vec![
        riot_found(),
        signed_in(),
        running(),
        league_found(),
        summoner("another", None),
        platform(),
    ]);
    match other {
        Detection::Identified(identity) => {
            assert_eq!(identity.puuid, PUUID);
            assert_eq!(identity.profile_icon_id, Some(4));
        }
        other => panic!("{other:?}"),
    }
}

#[test]
fn a_league_client_that_fails_changes_nothing() {
    let begun = || vec![riot_found(), signed_in(), running()];
    let mut failures = vec![
        vec![DetectEvent::League(LeagueSearch::Absent)],
        vec![DetectEvent::League(LeagueSearch::Failed)],
        vec![league_found(), DetectEvent::Summoner(None), DetectEvent::Running(Some(Ok(false)))],
        vec![league_found(), DetectEvent::Summoner(None), running()],
        vec![league_found(), summoner(" ", Some(1))],
    ];
    for failure in failures.drain(..) {
        let mut events = begun();
        events.extend(failure);
        match detected(events) {
            Detection::Identified(identity) => {
                assert_eq!(identity.profile_icon_id, Some(4));
                assert_eq!(identity.icon_data_url, None);
            }
            other => panic!("{other:?}"),
        }
    }
}

#[test]
fn unasked_answers_are_ignored() {
    let run = after(vec![signed_in(), running(), league_found(), platform()]);
    assert!(matches!(run.action(), DetectAction::FindRiot));
    let run = run.proceed(riot_found()).proceed(DetectEvent::Icon(None));
    assert!(matches!(run.action(), DetectAction::AskRiot(endpoint) if endpoint.port == 5));
    let run = run.proceed(signed_in());
    assert!(matches!(run.action(), DetectAction::LookForLeague));
    let run = run.proceed(running());
    assert!(matches!(run.action(), DetectAction::FindLeague));
    let run = run.proceed(league_found());
    assert!(matches!(run.action(), DetectAction::FetchSummoner(_)));
    let run = run.proceed(summoner(PUUID, Some(9)));
    assert!(matches!(run.action(), DetectAction::FetchPlatform(_)));
    let run = run
        .proceed(DetectEvent::Platform(None))
        .proceed(DetectEvent::Icon(None))
        .proceed(DetectEvent::Icon(Some((200, None))));
    assert!(matches!(run.action(), DetectAction::Finish(Detection::Identified(_))));
}
