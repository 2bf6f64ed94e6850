use swapper::lcu::{
    api_url, arg_value, authorization, discover, league_pid_alive, league_process_running,
    lockfile_candidates, parse_lockfile, read_at, scan_due, scan_system, scheme, socket_url,
    CommandLine, Discovery, LcuEndpoint,
};
use swapper::windows::process::{ProcessRef, SnapshotError};

fn endpoint() -> LcuEndpoint {
    LcuEndpoint { port: 51234, password: "abcTOKEN".into(), protocol: "https".into() }
}

#[test]
fn parses_lockfile_line() {
    let (pid, endpoint) = parse_lockfile("LeagueClient:1234:51234:abcTOKEN:https\n").unwrap();
    assert_eq!(pid, 1234);
    assert_eq!(endpoint.port, 51234);
    assert_eq!(endpoint.password, "abcTOKEN");
    assert_eq!(endpoint.protocol, "https");
}

#[test]
fn parses_lockfile_line_from_ux_process() {
    let (pid, endpoint) = parse_lockfile("LeagueClientUx:1234:51234:abcTOKEN:https\n").unwrap();
    assert_eq!(pid, 1234);
    assert_eq!(endpoint.port, 51234);
}

#[test]
fn rejects_garbage_lockfile_content() {
    assert!(parse_lockfile("").is_none());
    assert!(parse_lockfile("not a lockfile").is_none());
    assert!(parse_lockfile("name:pid:port:password:protocol\n").is_none());
    assert!(parse_lockfile("LeagueClient:123:0:tok:https\n").is_none());
    assert!(parse_lockfile("LeagueClient:0:51234:tok:https\n").is_none());
    assert!(parse_lockfile("OtherProcess:123:51234:tok:https\n").is_none());
}

#[test]
fn lockfile_fields_are_trimmed_and_extra_ones_ignored() {
    let (pid, endpoint) = parse_lockfile(" leagueclient : +12 : 65535 : p : http : x \r\n").unwrap();
    assert_eq!(pid, 12);
    assert_eq!(endpoint.port, 65535);
    assert_eq!(endpoint.protocol, "http");
    assert!(parse_lockfile("LeagueClient:1:65536:tok:https").is_none());
    assert!(parse_lockfile("LeagueClient:1:1: :https").is_none());
}

#[test]
fn extracts_lcu_arguments_from_command_line() {
    let command = r#""C:\Riot Games\League of Legends\LeagueClientUx.exe" --app-port=51234 --remoting-auth-token=secret"#;
    assert_eq!(arg_value(command, "--app-port=").as_deref(), Some("51234"));
    assert_eq!(arg_value(command, "--remoting-auth-token=").as_deref(), Some("secret"));
    assert_eq!(arg_value(command, "--missing="), None);
}

#[test]
fn builds_basic_authorization_and_api_url() {
    let endpoint = endpoint();
    assert_eq!(authorization(&endpoint), "Basic cmlvdDphYmNUT0tFTg==");
    assert_eq!(
        api_url(&endpoint, "/lol-summoner/v1/current-summoner"),
        "https://127.0.0.1:51234/lol-summoner/v1/current-summoner"
    );
}

#[test]
fn plain_endpoints_use_plain_schemes() {
    let mut endpoint = endpoint();
    assert_eq!(scheme(&endpoint), "https");
    assert_eq!(socket_url(&endpoint), "wss://127.0.0.1:51234/");
    endpoint.protocol = "HTTP".into();
    assert_eq!(scheme(&endpoint), "http");
    assert_eq!(socket_url(&endpoint), "ws://127.0.0.1:51234/");
}

#[test]
fn running_clients_are_found_by_their_command_line() {
    let line = |name: &str, parts: &[&str]| CommandLine {
        name: name.into(),
        parts: parts.iter().map(|part| part.to_string()).collect(),
    };
    let found = scan_system(&vec![
        line("other.exe", &["--app-port=1"]),
        line("LeagueClientUx.exe", &["x", "--app-port=0", "--remoting-auth-token=t"]),
        line("leagueclientux.EXE", &["\"--app-port=77\"", "--remoting-auth-token=\"t\""]),
    ])
    .unwrap();
    assert_eq!((found.port, found.password.as_str(), found.protocol.as_str()), (77, "t", "https"));
    assert!(scan_system(&vec![
        line("LeagueClientUx.exe", &["no", "arguments"]),
        line("LeagueClientUx.exe", &["--app-port=77", "--remoting-auth-token=t"]),
    ])
    .is_none());
    assert!(scan_system(&Vec::new()).is_none());
}

#[test]
fn discovery_tries_each_place_in_turn() {
    let search = discover(true, 2);
    assert_eq!(search, Discovery::Remembered);
    let search = search.proceed(None, 2);
    assert_eq!(search, Discovery::Candidate(0));
    let search = search.proceed(None, 2);
    assert_eq!(search, Discovery::Candidate(1));
    assert_eq!(
        search.proceed(Some(endpoint()), 2),
        Discovery::Found { endpoint: endpoint(), remember: Some(1) }
    );
    assert_eq!(discover(false, 0), Discovery::Scan);
    assert_eq!(Discovery::Scan.proceed(None, 0), Discovery::NotFound);
    assert_eq!(
        Discovery::Scan.proceed(Some(endpoint()), 0),
        Discovery::Found { endpoint: endpoint(), remember: None }
    );
}

#[test]
fn lockfiles_are_looked_for_where_riot_installs() {
    let all = lockfile_candidates(true);
    assert_eq!(all.len(), 5);
    assert_eq!(all[0].base, None);
    assert_eq!(all[0].below, vec!["Riot Games", "League of Legends", "lockfile"]);
    assert_eq!(all[4].base, Some("C:\\Program Files (x86)\\Riot Games"));
    assert_eq!(lockfile_candidates(false).len(), 3);
}

#[test]
fn stale_lockfiles_are_not_trusted() {
    assert!(league_pid_alive(Some("leagueclient.EXE")));
    assert!(!league_pid_alive(Some("notepad.exe")));
    assert!(read_at(endpoint(), None).is_none());
    assert_eq!(read_at(endpoint(), Some("LeagueClientUx.exe")), Some(endpoint()));
}

#[test]
fn process_scans_are_spaced_out() {
    assert!(scan_due(None));
    assert!(!scan_due(Some(9_999_999_999)));
    assert!(scan_due(Some(10_000_000_000)));
}

#[test]
fn league_is_recognised_in_the_table() {
    let table = vec![ProcessRef { pid: 1, image: "leagueclientux.exe".into() }];
    assert_eq!(league_process_running(Ok(table)), Ok(true));
    assert_eq!(league_process_running(Ok(Vec::new())), Ok(false));
    assert!(league_process_running(Err(SnapshotError { code: 1 })).is_err());
}
