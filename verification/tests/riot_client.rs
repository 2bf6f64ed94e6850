use swapper::json::Json;
use swapper::riot_client::{
    detect, discover, parse_lockfile, parse_userinfo, probe_without_answer, signed_in_account,
    userinfo_url, Endpoint, RiotProbe, UserInfoReply,
};
use swapper::windows::process::{ProcessRef, SnapshotError};

/// The user information inside a response body.
fn user_info(body: &str) -> String {
    let envelope: serde_json::Value = serde_json::from_str(body).unwrap();
    envelope["userInfo"].as_str().unwrap().to_string()
}

#[test]
fn reads_signed_in_riot_identity_without_league_client() {
    let body = r#"{"userInfo":"{\"sub\":\"12345678-1234-1234-1234-123456789abc\",\"acct\":{\"game_name\":\"Player\",\"tag_line\":\"EUW\"},\"lol\":{\"cpid\":\"EUW1\"},\"lol_account\":{\"profile_icon\":42}}"}"#;
    let identity = parse_userinfo(&user_info(body)).unwrap();
    assert_eq!(identity.puuid, "12345678-1234-1234-1234-123456789abc");
    assert_eq!(identity.game_name, "Player");
    assert_eq!(identity.tag_line, "EUW");
    assert_eq!(identity.platform.as_deref(), Some("EUW1"));
    assert_eq!(identity.profile_icon_id, Some(42));
}

#[test]
fn accepts_only_a_riot_client_https_lockfile() {
    let (pid, endpoint) = parse_lockfile("Riot Client:123:45678:secret:https\n").unwrap();
    assert_eq!(pid, 123);
    assert_eq!(endpoint.port, 45678);
    for body in [
        "LeagueClientUx:123:45678:secret:https",
        "Riot Client:0:45678:secret:https",
        "Riot Client:123:0:secret:https",
        "Riot Client:123:45678::https",
        "Riot Client:123:45678:secret:http",
    ] {
        assert!(parse_lockfile(body).is_none());
    }
}

#[test]
fn incomplete_riot_identity_is_not_accepted() {
    for body in [
        r#"{"userInfo":"{}"}"#,
        r#"{"userInfo":"{\"sub\":\"old\",\"acct\":{\"game_name\":\"Player\",\"tag_line\":\"\"}}"}"#,
        r#"{"userInfo":"{\"sub\":\"not-a-puuid\",\"acct\":{\"game_name\":\"Player\",\"tag_line\":\"EUW\"}}"}"#,
        r#"{"userInfo":"not-json"}"#,
    ] {
        assert!(parse_userinfo(&user_info(body)).is_none());
    }
}

#[test]
fn identifiers_are_written_in_one_form() {
    let text = r#"{"sub":" {12345678-1234-1234-1234-123456789ABC} ","acct":{"game_name":" P ","tag_line":"E"},"lol_account":{"profile_icon":1.5}}"#;
    let identity = parse_userinfo(text).unwrap();
    assert_eq!(identity.puuid, "12345678-1234-1234-1234-123456789abc");
    assert_eq!(identity.game_name, "P");
    assert_eq!(identity.platform, None);
    assert_eq!(identity.profile_icon_id, None);
}

#[test]
fn an_account_needs_both_halves_of_its_riot_id() {
    let account = |members: Vec<(String, Json)>| {
        Json::Object(vec![("acct".to_string(), Json::Object(members))])
    };
    let text = |s: &str| Json::Text(s.to_string());
    let whole = account(vec![
        ("game_name".to_string(), text("G")),
        ("tag_line".to_string(), text("T")),
    ]);
    let found = signed_in_account(0x0102, &whole).unwrap();
    assert_eq!(found.puuid, "00000000-0000-0000-0000-000000000102");
    let half = account(vec![("game_name".to_string(), text("G"))]);
    assert!(signed_in_account(1, &half).is_none());
    assert!(signed_in_account(1, &Json::Null).is_none());
}

#[test]
fn lockfiles_need_exactly_five_fields() {
    assert!(parse_lockfile("Riot Client:1:2:p:https:extra").is_none());
    assert!(parse_lockfile("Riot Client:1:2:p").is_none());
    assert!(parse_lockfile("Riot Client: 1:2:p:https").is_none());
    assert!(parse_lockfile("").is_none());
}

#[test]
fn discovery_checks_the_process_and_never_guesses() {
    let body = "Riot Client:123:45678:secret:https";
    let table = |image: &str| Ok(vec![ProcessRef { pid: 123, image: image.to_string() }]);
    assert_eq!(
        discover(Some(body), &table("riotclientservices.exe")),
        Ok(Some(Endpoint { port: 45678, password: "secret".to_string() }))
    );
    assert_eq!(discover(Some(body), &table("notepad.exe")), Ok(None));
    assert_eq!(discover(Some(body), &Ok(Vec::new())), Ok(None));
    let failed = SnapshotError { code: 5 };
    assert_eq!(discover(Some(body), &Err(failed)), Err(failed));
    assert_eq!(discover(None, &Err(failed)), Ok(None));
    assert_eq!(discover(Some("x"), &Err(failed)), Ok(None));
    assert_eq!(probe_without_answer(&Ok(None)), Some(RiotProbe::NotRunning));
    assert_eq!(probe_without_answer(&Err(failed)), Some(RiotProbe::Unavailable));
    let found = Ok(Some(Endpoint { port: 1, password: "p".to_string() }));
    assert_eq!(probe_without_answer(&found), None);
}

#[test]
fn answers_are_classified_by_status() {
    let info = r#"{"sub":"12345678-1234-1234-1234-123456789abc","acct":{"game_name":"P","tag_line":"E"}}"#;
    let body = |status: u16| UserInfoReply::Body(status, Some(info.to_string()));
    assert!(matches!(detect(body(200)), RiotProbe::Identified(_)));
    for status in [401, 403, 404] {
        assert_eq!(detect(body(status)), RiotProbe::NotReady);
        assert_eq!(detect(UserInfoReply::Unreadable(status)), RiotProbe::NotReady);
    }
    assert_eq!(detect(body(500)), RiotProbe::Unavailable);
    assert_eq!(detect(UserInfoReply::Unreadable(200)), RiotProbe::Unavailable);
    assert_eq!(detect(UserInfoReply::Silent), RiotProbe::Unavailable);
    assert_eq!(detect(UserInfoReply::Body(200, None)), RiotProbe::NotReady);
    assert_eq!(detect(UserInfoReply::Body(200, Some("{}".to_string()))), RiotProbe::NotReady);
}

#[test]
fn user_information_has_an_address() {
    assert_eq!(
        userinfo_url(45678),
        "https://127.0.0.1:45678/rso-auth/v1/authorization/userinfo"
    );
}
