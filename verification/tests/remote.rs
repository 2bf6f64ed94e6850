use swapper::json::parse;
use swapper::lcu::LcuEndpoint;
use swapper::remote::lcu::{watch, WatchEvent, WatchStep};
use swapper::remote::server::{
    action_allowed, action_response, asked_asset, asset, forbidden, serve_socket,
};
use swapper::remote::control::ActionError;
use swapper::remote::service::{
    maintain, new_pending_claim, probe, route_is_available, set_enabled, OwnedRoute, RemoteAction, RemoteCore,
    RemoteEvent, RemoteRun, RemoteState, RemoteStatus, StatusPatch,
};
use swapper::remote::tailscale::{
    address_for, cannot_run, describe, failure, find_cli, parse_root_route, parse_status,
    proxy_target, root_route, route_in, serve_off, serve_set, serve_set_args, status,
    CommandOutput, Node, RootRoute, StatusFile, TailscaleStatus,
};

/// A status from the JSON that Tailscale prints.
fn status_file(body: &str) -> StatusFile {
    let value: serde_json::Value = serde_json::from_str(body).unwrap();
    let text = |value: &serde_json::Value, key: &str| {
        value.get(key).and_then(|v| v.as_str()).map(str::to_string)
    };
    StatusFile {
        backend_state: text(&value, "BackendState"),
        node: value.get("Self").map(|node| Node {
            dns_name: text(node, "DNSName"),
            host_name: text(node, "HostName"),
        }),
        magic_dns_suffix: text(&value, "MagicDNSSuffix"),
    }
}

fn output(success: bool, stdout: &str, stderr: &str) -> CommandOutput {
    CommandOutput {
        success,
        stdout: stdout.as_bytes().to_vec(),
        stderr: stderr.as_bytes().to_vec(),
    }
}

#[test]
fn reads_magic_dns_name_from_status() {
    let body = r#"{"BackendState":"Running","Self":{"DNSName":"gaming-pc.tailnet.ts.net.","HostName":"GAMING-PC"},"MagicDNSSuffix":"tailnet.ts.net"}"#;
    let status = parse_status(Ok(status_file(body))).unwrap();
    assert_eq!(status.backend_state, "Running");
    assert_eq!(status.dns_name.as_deref(), Some("gaming-pc.tailnet.ts.net"));
}

#[test]
fn falls_back_to_host_and_suffix_when_dns_name_is_missing() {
    let body = r#"{"BackendState":"Running","Self":{"HostName":"GAMING-PC"},"MagicDNSSuffix":"tailnet.ts.net."}"#;
    let status = parse_status(Ok(status_file(body))).unwrap();
    assert_eq!(status.dns_name.as_deref(), Some("gaming-pc.tailnet.ts.net"));
}

#[test]
fn rejects_addresses_without_a_domain() {
    assert_eq!(address_for("gaming-pc"), None);
    assert_eq!(
        address_for("gaming-pc.tailnet.ts.net."),
        Some("https://gaming-pc.tailnet.ts.net".to_string())
    );
}

#[test]
fn reads_only_the_node_https_root_route() {
    let body = r#"{"Web":{"pc.tail.ts.net:443":{"Handlers":{"/":{"Proxy":"http://127.0.0.1:1234"},"/other":{"Proxy":"http://127.0.0.1:9999"}}},"pc.tail.ts.net:80":{"Handlers":{"/":{"Proxy":"http://127.0.0.1:8888"}}}}}"#;
    assert_eq!(
        parse_root_route(body, "pc.tail.ts.net").unwrap(),
        RootRoute::Proxy(proxy_target(1234))
    );
    assert_eq!(parse_root_route(body, "different.tail.ts.net").unwrap(), RootRoute::Vacant);
}

#[test]
fn preserves_non_proxy_root_and_rejects_unreadable_status() {
    let body = r#"{"Web":{"pc.tail.ts.net:443":{"Handlers":{"/":{"Path":"C:\\site"}}}}}"#;
    assert_eq!(parse_root_route(body, "pc.tail.ts.net").unwrap(), RootRoute::Other);
    assert!(parse_root_route("not json", "pc.tail.ts.net").is_err());
    assert_eq!(parse_root_route("{}", "pc.tail.ts.net").unwrap(), RootRoute::Vacant);
}

#[test]
fn odd_routes_are_recognised() {
    let invalid = parse(r#"{"Web":7}"#).unwrap();
    assert_eq!(
        route_in(&invalid, "pc"),
        Err("Tailscale returned invalid Serve routes".to_string())
    );
    let folded = parse(r#"{"Web":{"PC.Tail:443":{"Handlers":{"/":{"Proxy":"x"}}}}}"#).unwrap();
    assert_eq!(route_in(&folded, "pc.tail."), Ok(RootRoute::Proxy("x".to_string())));
    assert_eq!(parse_root_route(" null \n", "pc"), Ok(RootRoute::Vacant));
    assert!(parse_root_route("nope", "pc")
        .unwrap_err()
        .starts_with("Tailscale returned unreadable Serve routes: "));
}

#[test]
fn unclear_statuses_are_refused() {
    assert_eq!(
        parse_status(Err("why".to_string())),
        Err("Tailscale returned unreadable status: why".to_string())
    );
    for body in [r#"{"Self":{}}"#, r#"{"BackendState":" "}"#] {
        assert_eq!(
            parse_status(Ok(status_file(body))),
            Err("Tailscale did not report its state".to_string())
        );
    }
    let nameless = parse_status(Ok(status_file(
        r#"{"BackendState":"Stopped","Self":{"DNSName":"..","HostName":" "},"MagicDNSSuffix":"x"}"#,
    )))
    .unwrap();
    assert_eq!(nameless.dns_name, None);
    let upper = parse_status(Ok(status_file(
        r#"{"BackendState":"Running","Self":{"HostName":"ÄPC"},"MagicDNSSuffix":"x.y"}"#,
    )))
    .unwrap();
    assert_eq!(upper.dns_name.as_deref(), Some("äpc.x.y"));
}

#[test]
fn failed_commands_say_what_they_printed() {
    let failed = output(false, "out ", " err\n");
    assert_eq!(describe(&failed), "out  err");
    assert_eq!(failure("It", &failed), "It: out  err");
    assert_eq!(failure("It", &output(false, " ", "")), "It");
    assert_eq!(status(&failed), Err("Tailscale is not reachable: out  err".to_string()));
    assert_eq!(status(&output(true, "{}", "")), Ok("{}".to_string()));
    assert!(serve_set(&output(true, "", "")).is_ok());
    assert_eq!(
        serve_set(&failed),
        Err("Could not expose Swapper through Tailscale Serve: out  err".to_string())
    );
    assert_eq!(
        root_route(&failed, "pc"),
        Err("Could not inspect Tailscale Serve routes: out  err".to_string())
    );
    assert_eq!(root_route(&output(true, "", ""), "pc"), Ok(RootRoute::Vacant));
    assert!(serve_off(&output(false, "", "handler does not exist")).is_ok());
    assert!(serve_off(&failed).is_err());
    assert_eq!(cannot_run("x"), "Could not run Tailscale: x");
    let broken = CommandOutput { success: false, stdout: vec![0xff], stderr: Vec::new() };
    assert_eq!(describe(&broken), "\u{FFFD}");
}

#[test]
fn commands_have_their_arguments() {
    assert_eq!(
        serve_set_args(80),
        vec!["serve", "--bg", "--set-path", "/", "http://127.0.0.1:80"]
    );
    assert_eq!(find_cli()[2].variable, "LOCALAPPDATA");
    assert_ne!(proxy_target(1), proxy_target(10));
}

#[test]
fn a_recorded_route_can_be_replaced_after_restart() {
    let claim = OwnedRoute { dns_name: "pc.tail.ts.net".into(), port: 1234 };
    assert!(route_is_available(
        &RootRoute::Proxy(proxy_target(1234)),
        "pc.tail.ts.net",
        Some(&claim),
    ));
    assert!(!route_is_available(
        &RootRoute::Proxy(proxy_target(9999)),
        "pc.tail.ts.net",
        Some(&claim),
    ));
    assert!(!route_is_available(
        &RootRoute::Proxy(proxy_target(1234)),
        "other.tail.ts.net",
        Some(&claim),
    ));
}

#[test]
fn records_are_replaced_through_files_of_their_own() {
    let name = new_pending_claim();
    assert!(name.starts_with("remote-route-") && name.ends_with(".tmp"));
    assert_eq!(name.len(), 53);
    assert_ne!(name, new_pending_claim());
}

#[test]
fn foreign_routes_are_never_taken() {
    assert!(route_is_available(&RootRoute::Vacant, "pc", None));
    assert!(!route_is_available(&RootRoute::Other, "pc", None));
    assert!(!route_is_available(&RootRoute::Proxy(proxy_target(1)), "pc", None));
}

fn connected() -> RemoteEvent {
    RemoteEvent::Status(Ok(TailscaleStatus {
        backend_state: "running".into(),
        dns_name: Some("pc.tail.ts.net".into()),
    }))
}

fn advance(core: &mut RemoteCore, run: RemoteRun, events: Vec<RemoteEvent>) -> (RemoteRun, usize) {
    let mut run = run;
    let mut told = 0;
    for event in events {
        let (next, status) = run.proceed(core, event);
        told += usize::from(status.is_some());
        run = next;
    }
    (run, told)
}

#[test]
fn turning_on_publishes_the_address() {
    let mut core = RemoteCore::new(false);
    let (run, told) = set_enabled(&mut core, true);
    assert_eq!(told.map(|status| status.state), Some(RemoteState::Starting));
    assert_eq!(run.action(), RemoteAction::StartService);
    let (run, _) = advance(
        &mut core,
        run,
        vec![
            RemoteEvent::Service(Ok(1234)),
            RemoteEvent::Cli(true),
            connected(),
            RemoteEvent::Claim(Ok(None)),
        ],
    );
    assert_eq!(run.action(), RemoteAction::AskRoute { dns_name: "pc.tail.ts.net" });
    let (run, _) = advance(&mut core, run, vec![RemoteEvent::Route(Ok(RootRoute::Vacant))]);
    assert_eq!(
        run.action(),
        RemoteAction::SaveClaim { dns_name: "pc.tail.ts.net", port: 1234 }
    );
    let (run, _) = advance(&mut core, run, vec![RemoteEvent::Finished(Ok(()))]);
    assert_eq!(run.action(), RemoteAction::Serve { port: 1234 });
    let (run, told) = advance(&mut core, run, vec![RemoteEvent::Finished(Ok(()))]);
    assert_eq!(run.action(), RemoteAction::Finish);
    assert_eq!(told, 1);
    let status = core.status();
    assert_eq!(status.state, RemoteState::Available);
    assert_eq!(status.address.as_deref(), Some("https://pc.tail.ts.net"));
    assert_eq!(core.owned_route.as_ref().map(|own| own.port), Some(1234));
}

#[test]
fn turning_on_explains_what_is_missing() {
    let start = || {
        let mut core = RemoteCore::new(true);
        let (run, _) = set_enabled(&mut core, true);
        (core, run)
    };
    let end = |events: Vec<RemoteEvent>| {
        let (mut core, run) = start();
        let (run, _) = advance(&mut core, run, events);
        assert_eq!(run.action(), RemoteAction::Finish);
        core.status()
    };
    let failed = end(vec![RemoteEvent::Service(Err("no port".into()))]);
    assert_eq!((failed.state, failed.message.as_deref()), (RemoteState::Failed, Some("no port")));
    let service = || RemoteEvent::Service(Ok(1));
    let missing = end(vec![service(), RemoteEvent::Cli(false)]);
    assert_eq!(missing.state, RemoteState::NotInstalled);
    let mute = end(vec![service(), RemoteEvent::Cli(true), RemoteEvent::Status(Err("x".into()))]);
    assert_eq!((mute.state, mute.message.as_deref()), (RemoteState::Disconnected, Some("x")));
    let stopped = end(vec![
        service(),
        RemoteEvent::Cli(true),
        RemoteEvent::Status(Ok(TailscaleStatus { backend_state: "Stopped".into(), dns_name: None })),
    ]);
    assert_eq!(stopped.state, RemoteState::Disconnected);
    let nameless = end(vec![
        service(),
        RemoteEvent::Cli(true),
        RemoteEvent::Status(Ok(TailscaleStatus {
            backend_state: "Running".into(),
            dns_name: Some("pc".into()),
        })),
    ]);
    assert_eq!(
        nameless.message.as_deref(),
        Some("Tailscale is connected but did not report a MagicDNS name.")
    );
    let unreadable = end(vec![
        service(),
        RemoteEvent::Cli(true),
        connected(),
        RemoteEvent::Claim(Err("damaged".into())),
    ]);
    assert_eq!(unreadable.message.as_deref(), Some("damaged"));
    let taken = end(vec![
        service(),
        RemoteEvent::Cli(true),
        connected(),
        RemoteEvent::Claim(Ok(None)),
        RemoteEvent::Route(Ok(RootRoute::Other)),
    ]);
    assert_eq!(
        taken.message.as_deref(),
        Some("Tailscale's HTTPS root route is already in use. Swapper will not replace it.")
    );
    assert_eq!(taken.dns_name.as_deref(), Some("pc.tail.ts.net"));
    let unsaved = end(vec![
        service(),
        RemoteEvent::Cli(true),
        connected(),
        RemoteEvent::Claim(Ok(None)),
        RemoteEvent::Route(Ok(RootRoute::Vacant)),
        RemoteEvent::Finished(Err("disk".into())),
    ]);
    assert_eq!(unsaved.message.as_deref(), Some("disk"));
}

#[test]
fn an_overtaken_run_shows_nothing() {
    let mut core = RemoteCore::new(true);
    let (run, _) = set_enabled(&mut core, true);
    let (run, _) = advance(
        &mut core,
        run,
        vec![RemoteEvent::Service(Ok(1)), RemoteEvent::Cli(true), connected()],
    );
    let told = core.apply_disabled();
    assert_eq!(told.map(|status| status.state), Some(RemoteState::Disabled));
    let (_, told) = advance(&mut core, run, vec![RemoteEvent::Claim(Err("late".into()))]);
    assert_eq!(told, 0);
    assert_eq!(core.status(), RemoteStatus::disabled());
}

#[test]
fn turning_off_removes_only_the_own_route() {
    let mut core = RemoteCore::new(true);
    core.service_port = Some(9);
    let own = OwnedRoute { dns_name: "pc.tail".into(), port: 9 };
    let (run, told) = set_enabled(&mut core, false);
    assert!(told.is_some());
    let (run, _) = advance(
        &mut core,
        run,
        vec![RemoteEvent::Claim(Ok(Some(own))), RemoteEvent::Cli(true)],
    );
    assert_eq!(run.action(), RemoteAction::AskRoute { dns_name: "pc.tail" });
    let (run, _) =
        advance(&mut core, run, vec![RemoteEvent::Route(Ok(RootRoute::Proxy(proxy_target(9))))]);
    assert_eq!(run.action(), RemoteAction::RemoveRoute);
    let (run, _) = advance(&mut core, run, vec![RemoteEvent::Finished(Ok(()))]);
    assert_eq!(run.action(), RemoteAction::RemoveClaim);
    let (run, _) = advance(&mut core, run, vec![RemoteEvent::Finished(Ok(()))]);
    assert_eq!(run.action(), RemoteAction::StopService);
    let (run, _) = advance(
        &mut core,
        run,
        vec![RemoteEvent::Finished(Ok(())), RemoteEvent::Cli(true), connected()],
    );
    assert_eq!(run.action(), RemoteAction::Finish);
    assert_eq!(core.service_port, None);
    let status = core.status();
    assert!(!status.enabled && status.tailscale_installed && status.tailscale_running);

    let mut core = RemoteCore::new(true);
    core.owned_route = Some(OwnedRoute { dns_name: "pc.tail".into(), port: 9 });
    let (run, _) = set_enabled(&mut core, false);
    let (run, _) = advance(
        &mut core,
        run,
        vec![
            RemoteEvent::Claim(Err("x".into())),
            RemoteEvent::Cli(true),
            RemoteEvent::Route(Ok(RootRoute::Proxy(proxy_target(8)))),
        ],
    );
    assert_eq!(run.action(), RemoteAction::StopService);
}

#[test]
fn probes_and_repairs_begin_where_they_should() {
    let off = RemoteCore::new(false);
    assert_eq!(probe(&off).action(), RemoteAction::FindCli);
    assert!(maintain(&off, true).is_none());
    let mut on = RemoteCore::new(true);
    assert_eq!(probe(&on).action(), RemoteAction::StartService);
    assert!(maintain(&on, false).is_none());
    let run = maintain(&on, true).unwrap();
    let (run, _) = advance(&mut on, run, vec![RemoteEvent::Service(Err("x".into()))]);
    assert_eq!(run.action(), RemoteAction::FindCli);
    let told = on.apply(StatusPatch::Failed("x".into()));
    assert!(told.is_some());
    assert!(maintain(&on, false).is_some());
    assert!(on.apply(StatusPatch::Failed("x".into())).is_none());
}

#[test]
fn league_shows_only_while_remote_control_is_on() {
    let mut off = RemoteCore::new(false);
    assert!(off.patch_league(true, true).is_none());
    let mut on = RemoteCore::new(true);
    let told = on.patch_league(true, false).unwrap();
    assert!(told.league_running && !told.lcu_connected);
}

#[test]
fn the_watch_follows_the_league_client() {
    let endpoint = |port: u16| LcuEndpoint { port, password: "p".into(), protocol: "https".into() };
    let mut watch = watch();
    assert_eq!(watch.handle(WatchEvent::Discovered(None)), None);
    assert_eq!(watch.step, WatchStep::Rest);
    watch.handle(WatchEvent::Rested);
    assert_eq!(watch.handle(WatchEvent::Discovered(Some(endpoint(1)))), Some((true, false)));
    assert_eq!(watch.step, WatchStep::Connect);
    assert_eq!(watch.handle(WatchEvent::Connected(true)), Some((true, true)));
    assert_eq!(watch.step, WatchStep::Drain);
    assert_eq!(watch.handle(WatchEvent::Drained { closed: false }), None);
    watch.handle(WatchEvent::Rested);
    assert_eq!(watch.handle(WatchEvent::Discovered(Some(endpoint(1)))), None);
    assert_eq!(watch.handle(WatchEvent::Drained { closed: true }), Some((true, false)));
    watch.handle(WatchEvent::Rested);
    assert_eq!(watch.handle(WatchEvent::Discovered(Some(endpoint(1)))), None);
    assert_eq!(watch.step, WatchStep::Connect);
    watch.handle(WatchEvent::Connected(true));
    watch.handle(WatchEvent::Drained { closed: false });
    watch.handle(WatchEvent::Rested);
    assert_eq!(watch.handle(WatchEvent::Discovered(Some(endpoint(2)))), Some((true, true)));
    assert!(watch.connected_to.is_none() && !watch.lcu_connected);
    assert_eq!(watch.step, WatchStep::Connect);
    assert_eq!(watch.handle(WatchEvent::Connected(false)), Some((true, false)));
    watch.handle(WatchEvent::Rested);
    assert_eq!(watch.handle(WatchEvent::Discovered(None)), Some((false, false)));
    assert!(watch.connected_to.is_none());
}

#[test]
fn actions_need_the_mark_of_the_page() {
    assert!(action_allowed(Some(b"1")));
    assert!(!action_allowed(Some(b"11")));
    assert!(!action_allowed(Some(b"0")));
    assert!(!action_allowed(None));
    assert_eq!(forbidden().0, 403);
    assert_eq!(forbidden().1.message.as_deref(), Some("Invalid action request."));
    assert_eq!(action_response(Ok(())).0, 200);
    let (status, result) = action_response(Err(ActionError::conflict("late")));
    assert_eq!((status, result.message.as_deref()), (409, Some("late")));
}

#[test]
fn assets_are_looked_up_by_name() {
    assert_eq!(asked_asset("//"), "remote.html");
    assert_eq!(asked_asset("/assets/x.js"), "assets/x.js");
    let names = asset("assets\\x.js").unwrap();
    assert_eq!(names.first, "assets/x.js");
    assert_eq!(names.second, None);
    let page = asset("remote").unwrap();
    assert_eq!(page.second.as_deref(), Some("remote/remote.html"));
    for climbing in ["x/../secret", "..", "a\\..", "C:..\\x", "\\\\server\\share\\..\\x", ".//.."] {
        assert!(asset(climbing).is_none(), "{climbing}");
    }
    for plain in ["x/..y", "...", "\\\\..\\share\\x", "\\\\?\\C:\\a/../b", "\\\\.\\..\\x"] {
        assert!(asset(plain).is_some(), "{plain}");
    }
}

#[test]
fn pings_are_answered() {
    assert_eq!(serve_socket(r#"{"type":"ping"}"#), Some(r#"{"type":"pong"}"#));
    assert_eq!(serve_socket(r#"{"type":"other"}"#), None);
    assert_eq!(serve_socket(r#"["ping"]"#), None);
    assert_eq!(serve_socket("ping"), None);
}
