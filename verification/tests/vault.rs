use swapper::vault::auth::{has_login, has_persistent_auth, nonempty_yaml_value};
use swapper::vault::files::{
    blob_len, capture, clear_live, crypt_failure, icon_file_name, live_session_exists,
    new_pending_state, new_snapshot_file, pending_state_name, profile_icon_data_url, restore,
    save_profile_icon, saved_name, snapshot_file_name, target_path, valid_profile_icon_data_url,
    visit, Collector, Entry, FileRead, Snapshot, Visit,
};
use swapper::vault::session::{read_snapshot, save_snapshot, snapshot_from};
use swapper::vault::{Account, Config};
use uuid::Uuid;

/// An account from the JSON that it is saved as.
fn account(json: &str) -> Account {
    let value: serde_json::Value = serde_json::from_str(json).unwrap();
    let text = |key: &str| value.get(key).and_then(|v| v.as_str()).map(str::to_string);
    let id = |key: &str| Uuid::parse_str(&text(key).unwrap()).unwrap().as_u128();
    Account {
        id: id("id"),
        name: text("name").unwrap_or_default(),
        puuid: text("puuid"),
        game_name: text("game_name"),
        tag_line: text("tag_line"),
        platform: text("platform"),
        region: text("region"),
        profile_icon_id: value.get("profile_icon_id").and_then(|v| v.as_i64()),
        nickname: text("nickname"),
        vault_id: id("vault_id"),
    }
}

#[test]
fn accepts_only_bounded_image_data_urls_for_profile_icons() {
    assert!(valid_profile_icon_data_url("data:image/png;base64,AA=="));
    assert!(valid_profile_icon_data_url("data:image/jpeg;base64,AA=="));
    assert!(!valid_profile_icon_data_url("data:text/html;base64,AA=="));
    assert!(!valid_profile_icon_data_url("https://example.com/icon.png"));
}

#[test]
fn profile_icons_are_bounded() {
    let head = "data:image/png;base64,";
    let fits = format!("{head}{}", "A".repeat(384 * 1024 - head.len()));
    assert!(valid_profile_icon_data_url(&fits));
    let over = format!("{fits}A");
    assert!(!valid_profile_icon_data_url(&over));
    assert!(save_profile_icon(1, &over).is_err());
}

#[test]
fn rejects_snapshot_traversal() {
    assert!(target_path("client/sessions/../outside").is_none());
    assert!(target_path("client/cookies/C:/outside").is_none());
}

#[test]
fn snapshot_names_lead_to_known_places_only() {
    let place = target_path("client/private.yaml").unwrap();
    assert_eq!(place.source, "Riot Client/Data/RiotGamesPrivateSettings.yaml");
    assert_eq!(place.below, None);
    let place = target_path("client/cookies/a/b.dat").unwrap();
    assert_eq!(place.source, "Riot Client/Data/Cookies");
    assert_eq!(place.below.as_deref(), Some("a/b.dat"));
    for bad in [
        "client/sessions/",
        "client/sessions",
        "client/sessions//a",
        "client/sessions/./a",
        "client/sessions/\\a",
        "client/sessions/a\\..\\b",
        "client/other.yaml",
        "",
    ] {
        assert!(target_path(bad).is_none(), "{bad}");
    }
}

#[test]
fn saved_names_go_back() {
    let name = saved_name("client/sessions", "x\\y.dat");
    assert_eq!(name, "client/sessions/x/y.dat");
    assert_eq!(target_path(&name).unwrap().below.as_deref(), Some("x/y.dat"));
}

#[test]
fn recognises_signed_in_yaml_but_rejects_empty_login() {
    assert!(has_persistent_auth(b"private: 'token-data'\n"));
    assert!(has_persistent_auth(
        b"cookies:\n  - name: ssid\n    value: 'session-token'\n"
    ));
    assert!(has_persistent_auth(
        b"cookies:\n  - value: 'session-token'\n    name: ssid\n"
    ));
    assert!(has_persistent_auth(b"sessions:\n  account: active\n"));
    assert!(!has_persistent_auth(
        b"private: ''\ncookies:\n  - name: tdid\n    value: 'tracking'\n"
    ));
}

#[test]
fn logins_are_told_from_look_alikes() {
    assert!(!has_login("sessions:\nother: x\n"));
    assert!(!has_login("# private: token\n"));
    assert!(has_login("sessions: {a: 1}\n"));
    assert!(has_login("  refresh_token: abc # note\n"));
    assert!(!has_login("access_token: '' # note\nid_token: ~\n"));
    assert!(has_login("access_token: # note\n"));
    assert!(has_login("- name: \"ssid\"\n  value: x\n- name: other\n"));
    assert!(!has_login("- name: ssid\n- value: x\n"));
    assert!(has_login("sessions:\n\n  # comment\n  a: b\n"));
    assert!(has_persistent_auth(b"\xff\nprivate: x"));
    assert!(!nonempty_yaml_value(" [] "));
    assert!(nonempty_yaml_value(" x # y"));
}

#[test]
fn loads_accounts_saved_before_identity_fields_existed() {
    let id = Uuid::new_v4();
    let vault_id = Uuid::new_v4();
    let legacy = format!(r#"{{"id":"{id}","name":"Main","vault_id":"{vault_id}"}}"#);
    let account = account(&legacy);
    assert_eq!(account.display_name(), "Main");
    assert!(account.puuid.is_none());
    assert!(account.riot_id().is_none());
    assert!(account.nickname.is_none());
    assert!(account.region.is_none());
}

#[test]
fn display_name_prefers_nickname_then_riot_id_then_legacy_name() {
    let id = Uuid::new_v4();
    let vault_id = Uuid::new_v4();
    let base = format!(
        r#"{{"id":"{id}","name":"OldLabel","puuid":"abc","game_name":"Example","tag_line":"ABC","vault_id":"{vault_id}"}}"#
    );
    let mut account = account(&base);
    assert_eq!(account.riot_id().as_deref(), Some("Example#ABC"));
    assert_eq!(account.display_name(), "Example#ABC");
    account.nickname = Some("Main".into());
    assert_eq!(account.display_name(), "Main");
    account.nickname = Some("   ".into());
    assert_eq!(account.display_name(), "Example#ABC");
}

#[test]
fn riot_id_is_optional_until_identity_is_discovered() {
    let id = Uuid::new_v4();
    let vault_id = Uuid::new_v4();
    let partial = format!(
        r#"{{"id":"{id}","name":"Main","game_name":"Example","vault_id":"{vault_id}"}}"#
    );
    let account = account(&partial);
    assert_eq!(account.riot_id(), None);
    assert_eq!(account.display_name(), "Main");
}

#[test]
fn a_saved_session_reads_back() {
    let snapshot = Snapshot {
        entries: vec![
            Entry { relative: "client/private.yaml".into(), bytes: vec![1, 2, 3] },
            Entry { relative: "client/sessions/é".into(), bytes: Vec::new() },
        ],
    };
    let bytes = save_snapshot(&snapshot).unwrap();
    assert_eq!(bytes.len(), 8 + 16 + 19 + 3 + 16 + 18);
    assert_eq!(bytes[0], 2);
    assert_eq!(bytes[8], 19);
    assert_eq!(&bytes[16..35], b"client/private.yaml");
    let back = read_snapshot(&bytes).unwrap();
    assert_eq!(back.entries.len(), 2);
    assert_eq!(back.entries[0].relative, "client/private.yaml");
    assert_eq!(back.entries[0].bytes, vec![1, 2, 3]);
    assert_eq!(back.entries[1].relative, "client/sessions/é");
    assert!(back.entries[1].bytes.is_empty());
    let damaged = read_snapshot(&bytes[..20]);
    assert!(matches!(damaged, Err(message) if message.starts_with("Saved account is invalid: ")));
}

#[test]
fn a_session_that_is_too_large_is_not_saved() {
    let snapshot = Snapshot {
        entries: vec![Entry { relative: "a".into(), bytes: vec![0; 128 * 1024 * 1024] }],
    };
    assert_eq!(
        save_snapshot(&snapshot),
        Err("Riot session is too large to save safely".to_string())
    );
}

#[test]
fn captures_are_bounded_and_need_a_login() {
    let mut files = Collector::new();
    assert_eq!(
        files.reserve(32 * 1024 * 1024 + 1),
        Err("A Riot session file is too large to save safely".to_string())
    );
    for _ in 0..4 {
        files.reserve(32 * 1024 * 1024).unwrap();
    }
    assert_eq!(files.reserve(1), Err("Riot session is too large to save safely".to_string()));
    let mut files = Collector::new();
    files.push("client/settings.yaml".into(), b"private: x".to_vec());
    assert!(capture(files).is_err());
    let mut files = Collector::new();
    files.push("client/private.yaml".into(), b"private: x".to_vec());
    let snapshot = match capture(files) {
        Ok(files) => files.finish(),
        Err(message) => panic!("{message}"),
    };
    assert_eq!(snapshot.entries.len(), 1);
    assert_eq!(restore(&snapshot).unwrap_or_default().len(), 1);
}

#[test]
fn one_bad_entry_refuses_the_whole_session() {
    let snapshot = Snapshot {
        entries: vec![
            Entry { relative: "client/private.yaml".into(), bytes: Vec::new() },
            Entry { relative: "elsewhere".into(), bytes: Vec::new() },
        ],
    };
    assert!(matches!(
        restore(&snapshot),
        Err(message) if message == "Saved session contains an invalid path"
    ));
}

#[test]
fn live_sessions_are_recognised_in_order() {
    let signed_in = || FileRead::Bytes(b"private: x".to_vec());
    assert_eq!(live_session_exists(&vec![FileRead::Absent, signed_in()]), Ok(true));
    assert_eq!(live_session_exists(&vec![FileRead::Absent, FileRead::Absent]), Ok(false));
    assert_eq!(
        live_session_exists(&vec![FileRead::Failed("no".into()), signed_in()]),
        Err("no".to_string())
    );
    assert_eq!(live_session_exists(&vec![signed_in(), FileRead::Failed("no".into())]), Ok(true));
}

#[test]
fn only_riot_authentication_is_cleared() {
    let (files, dirs) = clear_live();
    assert_eq!(files.len(), 4);
    assert_eq!(files[2], "Riot Client/Config/RiotClientSettings.yaml");
    assert_eq!(dirs, vec!["Riot Client/Data/Sessions", "Riot Client/Data/Cookies"]);
}

#[test]
fn links_are_never_followed() {
    assert!(visit(true, true, true) == Visit::Skip);
    assert!(visit(false, true, false) == Visit::Descend);
    assert!(visit(false, false, true) == Visit::Take);
    assert!(visit(false, false, false) == Visit::Skip);
}

#[test]
fn files_are_named_after_ids() {
    let id = 0x1234_5678_9abc_def0_1122_3344_5566_7788u128;
    assert_eq!(snapshot_file_name(id), "12345678-9abc-def0-1122-334455667788.bin");
    assert_eq!(pending_state_name(id), "state-12345678-9abc-def0-1122-334455667788.tmp");
    assert_eq!(icon_file_name(id), "12345678-9abc-def0-1122-334455667788.data-url");
}

#[test]
fn new_files_are_named_after_random_ids() {
    let (id, name) = new_snapshot_file();
    assert_eq!(name, format!("{}.bin", Uuid::from_u128(id)));
    assert_eq!(Uuid::from_u128(id).get_version_num(), 4);
    let pending = new_pending_state();
    assert!(pending.starts_with("state-") && pending.ends_with(".tmp"));
    assert_eq!(pending.len(), 46);
    assert_ne!(pending, new_pending_state());
}

#[test]
fn cached_icons_are_shown_as_saved() {
    let url = " data:image/png;base64,AA== \n";
    let file = match save_profile_icon(7, url) {
        Ok(file) => file,
        Err(message) => panic!("{message}"),
    };
    assert_eq!(file.text, "data:image/png;base64,AA==");
    assert_eq!(
        profile_icon_data_url(Some(file.text)).as_deref(),
        Some("data:image/png;base64,AA==")
    );
    assert_eq!(profile_icon_data_url(Some("damaged".into())), None);
    assert_eq!(profile_icon_data_url(None), None);
}

#[test]
fn data_protection_reports_its_limits() {
    assert_eq!(blob_len(7), Ok(7));
    assert_eq!(blob_len(u32::MAX as usize + 1), Err("Session is too large".to_string()));
    assert_eq!(crypt_failure(true, "x"), "Windows could not protect this session: x");
    assert_eq!(crypt_failure(false, "x"), "Windows could not unlock this session: x");
}

#[test]
fn settings_begin_empty() {
    let config = Config::default();
    assert!(config.accounts.is_empty() && config.active_id.is_none() && !config.use_deceive);
    assert!(config.position(1).is_none());
}

#[test]
fn an_unreadable_session_says_why() {
    assert_eq!(
        read_snapshot(&[]).err().unwrap(),
        "Saved account is invalid: io error: unexpected end of file"
    );
    let not_text = [1, 0, 0, 0, 0, 0, 0, 0, 1, 0, 0, 0, 0, 0, 0, 0, 0xff];
    assert_eq!(
        read_snapshot(&not_text).err().unwrap(),
        "Saved account is invalid: string is not valid utf8: invalid utf-8 sequence of 1 bytes from index 0"
    );
    assert_eq!(
        snapshot_from(Err("no".to_string())).err().unwrap(),
        "Saved account is invalid: no"
    );
    let read = snapshot_from(Ok(vec![("a".to_string(), vec![1]), ("b".to_string(), vec![2])]));
    let entries = read.unwrap().entries;
    assert_eq!(entries[0].relative, "a");
    assert_eq!(entries[1].bytes, vec![2]);
}
