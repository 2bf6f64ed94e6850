use swapper::identity::{
    after_failed_fetch, apply_identity, can_update_from_detection, detect, detect_league, enrich,
    fetch_icon, fetch_platform, icon_change, icon_path, league_is_asked, nonempty,
    normalize_platform, outcome_for, parse_platform, region_label, CurrentSummoner, DetectOutcome,
    DetectedIdentity, Detection, IconChange, IconKind,
};
use swapper::riot_client::{RiotIdentity, RiotProbe};
use swapper::vault::files::valid_profile_icon_data_url;
use swapper::vault::{Account, Config};
use swapper::windows::process::SnapshotError;
use uuid::Uuid;

fn identity() -> DetectedIdentity {
    DetectedIdentity {
        puuid: "PUUID-A".into(),
        game_name: "Example".into(),
        tag_line: "ABC".into(),
        platform: Some("EUW1".into()),
        region: Some("EUW".into()),
        profile_icon_id: Some(4561),
        icon_data_url: None,
    }
}

fn account(name: &str, puuid: Option<&str>) -> Account {
    Account {
        id: Uuid::new_v4().as_u128(),
        name: name.into(),
        puuid: puuid.map(str::to_string),
        game_name: None,
        tag_line: None,
        platform: None,
        region: None,
        profile_icon_id: None,
        nickname: None,
        vault_id: Uuid::new_v4().as_u128(),
    }
}

#[test]
fn maps_platform_ids_to_friendly_regions() {
    assert_eq!(region_label("EUW1"), "EUW");
    assert_eq!(region_label("NA1"), "NA");
    assert_eq!(region_label("EUN1"), "EUNE");
    assert_eq!(region_label("KR"), "KR");
    assert_eq!(region_label("LA2"), "LAS");
    assert_eq!(region_label("XX9"), "XX9");
}

#[test]
fn parses_platform_from_config_bodies() {
    assert_eq!(parse_platform("\"EUW1\"").as_deref(), Some("EUW1"));
    assert_eq!(parse_platform("EUW1").as_deref(), Some("EUW1"));
    assert_eq!(parse_platform("{\"platformId\":\"NA1\"}").as_deref(), Some("NA1"));
    assert_eq!(parse_platform("{\"value\":\"EUN1\"}").as_deref(), Some("EUN1"));
    assert_eq!(parse_platform("{\"errorCode\":\"PLATFORM_CONFIG_NOT_READY\"}"), None);
    assert_eq!(parse_platform("null"), None);
}

#[test]
fn a_platform_id_of_another_type_hides_the_value() {
    assert_eq!(parse_platform("{\"platformId\":7,\"value\":\"EUN1\"}"), None);
    assert_eq!(parse_platform(" ' \"KR\" ' "), Some("' \"KR\" '".to_string()));
    assert_eq!(nonempty(" \" KR \" ").as_deref(), Some("KR"));
    assert_eq!(nonempty(" \"\" "), None);
}

#[test]
fn rejects_platform_values_that_are_not_platform_ids() {
    assert_eq!(normalize_platform("euw1").as_deref(), Some("EUW1"));
    assert_eq!(normalize_platform("EUW 1"), None);
    assert_eq!(normalize_platform(""), None);
    assert_eq!(normalize_platform("Not a platform"), None);
    assert_eq!(normalize_platform("\"\""), None);
}

#[test]
fn platform_values_are_bounded_and_ascii() {
    assert_eq!(normalize_platform("ABCDEFGHIJKLMNO1").as_deref(), Some("ABCDEFGHIJKLMNO1"));
    assert_eq!(normalize_platform("ABCDEFGHIJKLMNO12"), None);
    assert_eq!(normalize_platform("é"), None);
    assert_eq!(normalize_platform("straß").as_deref(), Some("STRASS"));
}

#[test]
fn taglines_never_influence_the_region() {
    assert_ne!(region_label("EUW1"), "666");
    assert_ne!(region_label("EUW1"), "NA");
    assert_eq!(region_label("NA1"), "NA");
}

#[test]
fn refreshes_riot_id_for_the_same_puuid_without_touching_nickname() {
    let mut account = account("OldName#OLD", Some("PUUID-A"));
    account.nickname = Some("Main".into());
    account.game_name = Some("OldName".into());
    account.tag_line = Some("OLD".into());
    account.platform = Some("EUW1".into());
    account.region = Some("EUW".into());

    let changed = apply_identity(&mut account, &identity());

    assert!(changed);
    assert_eq!(account.puuid.as_deref(), Some("PUUID-A"));
    assert_eq!(account.riot_id().as_deref(), Some("Example#ABC"));
    assert_eq!(account.nickname.as_deref(), Some("Main"));
    assert_eq!(account.display_name(), "Main");
    assert_eq!(account.region.as_deref(), Some("EUW"));
    assert_eq!(account.profile_icon_id, Some(4561));
}

#[test]
fn adopts_identity_without_reporting_changes_when_nothing_differs() {
    let mut account = account("Example#ABC", Some("PUUID-A"));
    account.game_name = Some("Example".into());
    account.tag_line = Some("ABC".into());
    account.platform = Some("EUW1".into());
    account.region = Some("EUW".into());
    account.profile_icon_id = Some(4561);

    assert!(!apply_identity(&mut account, &identity()));
}

#[test]
fn riot_identity_without_optional_league_details_preserves_saved_details() {
    let mut account = account("Example#ABC", Some("PUUID-A"));
    account.game_name = Some("Example".into());
    account.tag_line = Some("ABC".into());
    account.platform = Some("EUW1".into());
    account.region = Some("EUW".into());
    account.profile_icon_id = Some(4561);
    let mut riot = identity();
    riot.platform = None;
    riot.region = None;
    riot.profile_icon_id = None;

    assert!(!apply_identity(&mut account, &riot));
    assert_eq!(account.platform.as_deref(), Some("EUW1"));
    assert_eq!(account.region.as_deref(), Some("EUW"));
    assert_eq!(account.profile_icon_id, Some(4561));
}

#[test]
fn migrates_a_legacy_custom_name_to_the_nickname_on_first_identity() {
    let mut account = account("Main", None);

    apply_identity(&mut account, &identity());

    assert_eq!(account.nickname.as_deref(), Some("Main"));
    assert_eq!(account.puuid.as_deref(), Some("PUUID-A"));
    assert_eq!(account.display_name(), "Main");
    assert_eq!(account.riot_id().as_deref(), Some("Example#ABC"));
}

#[test]
fn observing_an_unknown_login_does_not_relabel_a_legacy_account() {
    let legacy = account("Main", None);
    let legacy_id = legacy.id;
    let mut config =
        Config { accounts: vec![legacy], active_id: Some(legacy_id), ..Config::default() };

    let detection = Detection::Identified(identity());
    let result = outcome_for(&detection, &mut config);

    assert!(matches!(
        result.outcome,
        DetectOutcome::Identified { saved_account_id: None, .. }
    ));
    assert!(!result.dirty);
    assert!(config.accounts[0].puuid.is_none());
    assert_eq!(config.accounts[0].display_name(), "Main");
}

#[test]
fn an_unsaved_login_cannot_prove_ownership_of_a_legacy_vault() {
    let legacy = account("Main", None);
    assert!(!can_update_from_detection(&legacy, &identity()));
}

#[test]
fn observing_the_active_login_refreshes_it_once() {
    let known = account("Main", Some("PUUID-A"));
    let id = known.id;
    let mut config = Config { accounts: vec![known], active_id: Some(id), ..Config::default() };
    let detection = Detection::Identified(identity());
    {
        let seen = outcome_for(&detection, &mut config);
        assert!(seen.dirty);
        assert_eq!(seen.icon, Some((id, IconChange::Remove)));
        assert!(matches!(
            seen.outcome,
            DetectOutcome::Identified { saved_account_id: Some(found), .. } if found == id
        ));
    }
    let again = outcome_for(&detection, &mut config);
    assert!(!again.dirty);
    assert_eq!(again.icon, Some((id, IconChange::Keep)));
    assert_eq!(outcome_for(&Detection::NotReady, &mut config).outcome, DetectOutcome::NotReady);
    assert_eq!(outcome_for(&Detection::NotRunning, &mut config).outcome, DetectOutcome::NotRunning);
    assert_eq!(
        outcome_for(&Detection::Unavailable, &mut config).outcome,
        DetectOutcome::Unavailable
    );
}

#[test]
fn a_new_image_replaces_the_cached_one() {
    let mut fresh = identity();
    fresh.icon_data_url = Some("data:image/png;base64,AA==".into());
    assert_eq!(
        icon_change(&account("x", None), &fresh),
        IconChange::Save("data:image/png;base64,AA==")
    );
    fresh.icon_data_url = None;
    fresh.profile_icon_id = None;
    assert_eq!(icon_change(&account("x", None), &fresh), IconChange::Keep);
}

#[test]
fn riot_probes_become_detections() {
    let probe = RiotProbe::Identified(RiotIdentity {
        puuid: "p".into(),
        game_name: "G".into(),
        tag_line: "T".into(),
        platform: Some(" euw1 ".into()),
        profile_icon_id: Some(-3),
    });
    let found = match detect(probe) {
        Detection::Identified(found) => found,
        other => panic!("{other:?}"),
    };
    assert_eq!(found.platform.as_deref(), Some("EUW1"));
    assert_eq!(found.region.as_deref(), Some("EUW"));
    assert_eq!(found.profile_icon_id, None);
    assert_eq!(found.riot_id(), "G#T");
    assert_eq!(detect(RiotProbe::NotReady), Detection::NotReady);
    assert_eq!(detect(RiotProbe::NotRunning), Detection::NotRunning);
    assert_eq!(detect(RiotProbe::Unavailable), Detection::Unavailable);
}

#[test]
fn league_only_adds_an_image_of_the_same_account() {
    let mut shown = identity();
    let mut league = identity();
    league.game_name = "Other".into();
    league.profile_icon_id = Some(7);
    league.icon_data_url = Some("data:image/png;base64,AA==".into());
    enrich(&mut shown, Detection::Identified(league.clone()));
    assert_eq!(shown.game_name, "Example");
    assert_eq!(shown.profile_icon_id, Some(7));
    assert_eq!(shown.icon_data_url.as_deref(), Some("data:image/png;base64,AA=="));
    let mut other = identity();
    other.puuid = "PUUID-B".into();
    enrich(&mut other, Detection::Identified(league));
    assert_eq!(other.profile_icon_id, Some(4561));
    enrich(&mut other, Detection::NotReady);
    assert_eq!(other.icon_data_url, None);
}

#[test]
fn league_summoners_need_all_three_texts() {
    let summoner = |tag: &str| CurrentSummoner {
        puuid: " p ".into(),
        game_name: "G".into(),
        tag_line: tag.into(),
        profile_icon_id: Some(-1),
    };
    assert!(summoner("  ").complete().is_none());
    let complete = summoner(" T ").complete().unwrap();
    assert_eq!(complete.puuid, "p");
    assert_eq!(complete.profile_icon_id, None);
    let found = detect_league(complete, Some("NA1".into()), None);
    assert!(matches!(
        found,
        Detection::Identified(DetectedIdentity { region: Some(region), .. }) if region == "NA"
    ));
}

#[test]
fn an_unreadable_table_keeps_waiting_for_league() {
    let failed = Err(SnapshotError { code: 5 });
    assert_eq!(after_failed_fetch(None), Detection::NotReady);
    assert_eq!(after_failed_fetch(Some(failed)), Detection::NotReady);
    assert_eq!(after_failed_fetch(Some(Ok(true))), Detection::NotReady);
    assert_eq!(after_failed_fetch(Some(Ok(false))), Detection::NotRunning);
    assert!(!league_is_asked(Some(failed)));
    assert!(league_is_asked(Some(Ok(true))));
    assert!(!league_is_asked(None));
}

#[test]
fn platforms_are_fetched_only_from_successful_answers() {
    assert_eq!(fetch_platform(200, Some("\"euw1\"")).as_deref(), Some("EUW1"));
    assert_eq!(fetch_platform(404, Some("\"euw1\"")), None);
    assert_eq!(fetch_platform(200, None), None);
}

#[test]
fn fetched_icons_can_be_cached() {
    assert_eq!(icon_path(29, IconKind::Jpeg), "/lol-game-data/assets/v1/profile-icons/29.jpg");
    assert_eq!(
        fetch_icon(IconKind::Png, 200, Some(&[1, 2, 3])).as_deref(),
        Some("data:image/png;base64,AQID")
    );
    assert_eq!(fetch_icon(IconKind::Png, 500, Some(&[1])), None);
    assert_eq!(fetch_icon(IconKind::Png, 200, Some(&[])), None);
    assert_eq!(fetch_icon(IconKind::Png, 200, None), None);
    let largest = vec![0u8; 256 * 1024];
    let url = fetch_icon(IconKind::Jpeg, 200, Some(&largest)).unwrap();
    assert!(url.starts_with("data:image/jpeg;base64,"));
    assert!(valid_profile_icon_data_url(&url));
    let too_large = vec![0u8; 256 * 1024 + 1];
    assert_eq!(fetch_icon(IconKind::Jpeg, 200, Some(&too_large)), None);
}
