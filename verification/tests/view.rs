use swapper::identity::{DetectedIdentity, Detection};
use swapper::number::{decimal_of, parse_u16, parse_u32, signed_decimal_of};
use swapper::remote::service::RemoteStatus;
use swapper::text::{lines_of, split_on, trim, words_of};
use swapper::vault::{Account, Config};
use swapper::view::{
    account_label, account_name, detection_error, expected_login, keeps_open, view,
};

fn config() -> Config {
    Config {
        accounts: vec![Account {
            id: 5,
            name: "Old".into(),
            puuid: Some("P".into()),
            game_name: Some("Game".into()),
            tag_line: Some("TAG".into()),
            platform: Some("EUW1".into()),
            region: Some("EUW".into()),
            profile_icon_id: Some(3),
            nickname: None,
            vault_id: 6,
        }],
        active_id: Some(5),
        riot_exe: Some("C:\\R.exe".into()),
        ..Config::default()
    }
}

fn login(puuid: &str) -> Detection {
    Detection::Identified(DetectedIdentity {
        puuid: puuid.into(),
        game_name: "G".into(),
        tag_line: "T".into(),
        platform: None,
        region: None,
        profile_icon_id: None,
        icon_data_url: None,
    })
}

#[test]
fn the_interface_shows_names_and_images() {
    let shown = view(
        &config(),
        &vec![Some("data:image/png;base64,AA==".into())],
        true,
        false,
        &RemoteStatus::disabled(),
    );
    assert_eq!(shown.accounts.len(), 1);
    assert_eq!(shown.accounts[0].name, "Game#TAG");
    assert_eq!(shown.accounts[0].riot_id.as_deref(), Some("Game#TAG"));
    assert_eq!(shown.accounts[0].icon_data_url.as_deref(), Some("data:image/png;base64,AA=="));
    assert_eq!(shown.active_id, Some(5));
    assert!(shown.riot_detected && !shown.deceive_detected);
    assert_eq!(shown.riot_exe.as_deref(), Some("C:\\R.exe"));
    assert_eq!(shown.remote, RemoteStatus::disabled());
}

#[test]
fn only_the_login_the_user_saw_is_saved() {
    assert!(expected_login(login("P"), " P ").is_ok());
    assert!(expected_login(login("Q"), "P")
        .unwrap_err()
        .starts_with("Different Riot account detected. The current login"));
    assert_eq!(
        expected_login(Detection::NotReady, "P").unwrap_err(),
        detection_error(&Detection::NotReady)
    );
    assert_ne!(
        detection_error(&Detection::NotRunning),
        detection_error(&Detection::Unavailable)
    );
}

#[test]
fn notifications_speak_of_accounts() {
    assert_eq!(account_name(&config(), 5).as_deref(), Some("Game#TAG"));
    assert_eq!(account_name(&config(), 6), None);
    assert_eq!(account_label(&None), "the selected account");
    assert_eq!(account_label(&Some("A".into())), "A");
    assert!(keeps_open("add"));
    assert!(!keeps_open("settings"));
}

#[test]
fn numbers_are_read_and_written() {
    assert_eq!(parse_u16("65535"), Some(65535));
    assert_eq!(parse_u16("65536"), None);
    assert_eq!(parse_u32("+7"), Some(7));
    assert_eq!(parse_u32("-7"), None);
    assert_eq!(parse_u32("+"), None);
    assert_eq!(parse_u32("99999999999999999999"), None);
    assert_eq!(decimal_of(0), "0");
    assert_eq!(decimal_of(u64::MAX), u64::MAX.to_string());
    assert_eq!(signed_decimal_of(i64::MIN), i64::MIN.to_string());
    assert_eq!(signed_decimal_of(-12), "-12");
}

#[test]
fn texts_are_taken_apart_as_the_standard_library_does() {
    for text in ["", "a", "a\n", "a\r\nb", "\n\n", "a\rb\n", "\u{2003}x\u{85}\ty ", ":a::b:"] {
        assert_eq!(lines_of(text), text.lines().collect::<Vec<_>>());
        assert_eq!(words_of(text), text.split_whitespace().collect::<Vec<_>>());
        assert_eq!(split_on(text, ':'), text.split(':').collect::<Vec<_>>());
        assert_eq!(trim(text), text.trim());
    }
}
