//! What Tailscale reports, and what it is asked to do.

use vstd::prelude::*;

use crate::json::{json_parsed, parse, text_in, Json, JsonView};
use crate::number::{decimal, decimal_is_injective, decimal_of};
use crate::text::{
    contains_char, contains_text, eq_ignore_ascii_case, is_white, occurs, owned, same, same_folded,
    strip_back, strip_back_of, trim, trimmed, trimming_takes_white_space_alone, Trim,
};
use crate::unicode::{from_utf8_lossy, lowercase, to_lowercase, utf8_lossy};
use crate::vault::files::outcome_view;
use crate::windows::process::texts;

verus! {

/// The state that Tailscale reports, and the name of this machine where it has one.
#[derive(Debug, PartialEq, Eq)]
pub struct TailscaleStatus {
    pub backend_state: String,
    pub dns_name: Option<String>,
}

/// The state that Tailscale reports, as a mathematical value.
pub struct TailscaleModel {
    pub backend_state: Seq<char>,
    pub dns_name: Option<Seq<char>>,
}

impl View for TailscaleStatus {
    type V = TailscaleModel;

    open spec fn view(&self) -> TailscaleModel {
        TailscaleModel { backend_state: self.backend_state@, dns_name: owned(self.dns_name) }
    }
}

/// What Tailscale serves at the root of this machine's HTTPS address.
#[derive(Debug, PartialEq, Eq)]
pub enum RootRoute {
    Vacant,
    Proxy(String),
    Other,
}

/// What Tailscale serves at the root, as a mathematical value.
pub enum RouteModel {
    Vacant,
    Proxy(Seq<char>),
    Other,
}

impl View for RootRoute {
    type V = RouteModel;

    open spec fn view(&self) -> RouteModel {
        match *self {
            RootRoute::Vacant => RouteModel::Vacant,
            RootRoute::Proxy(target) => RouteModel::Proxy(target@),
            RootRoute::Other => RouteModel::Other,
        }
    }
}

/// What is read of the status that Tailscale prints.
pub struct StatusFile {
    pub backend_state: Option<String>,
    pub node: Option<Node>,
    pub magic_dns_suffix: Option<String>,
}

/// What is read of this machine in the status that Tailscale prints.
pub struct Node {
    pub dns_name: Option<String>,
    pub host_name: Option<String>,
}

/// What a command printed, and whether it succeeded.
pub struct CommandOutput {
    pub success: bool,
    pub stdout: Vec<u8>,
    pub stderr: Vec<u8>,
}

/// Where the command of Tailscale is looked for: below the directory that an environment variable
/// names, if it is set.
#[derive(Debug, PartialEq, Eq)]
pub struct CliPlace {
    pub variable: &'static str,
    pub path: &'static str,
}

/// Where the command of Tailscale is looked for, in this order, before the search path is tried.
pub fn find_cli() -> (places: [CliPlace; 3])
    ensures
        places@[0].variable@ == "ProgramFiles"@,
        places@[0].path@ == "Tailscale\\tailscale.exe"@,
        places@[1].variable@ == "ProgramFiles(x86)"@,
        places@[1].path@ == "Tailscale\\tailscale.exe"@,
        places@[2].variable@ == "LOCALAPPDATA"@,
        places@[2].path@ == "Programs\\Tailscale\\tailscale.exe"@,
{
    [
        CliPlace { variable: "ProgramFiles", path: "Tailscale\\tailscale.exe" },
        CliPlace { variable: "ProgramFiles(x86)", path: "Tailscale\\tailscale.exe" },
        CliPlace { variable: "LOCALAPPDATA", path: "Programs\\Tailscale\\tailscale.exe" },
    ]
}

/// What a command printed, on either stream, without the spaces around it.
pub open spec fn described(stdout: Seq<char>, stderr: Seq<char>) -> Seq<char> {
    trimmed(stdout + stderr)
}

/// What a command printed, on either stream, from the texts of the streams.
pub fn describe_texts(stdout: String, stderr: &str) -> (text: String)
    ensures
        text@ == described(stdout@, stderr@),
{
    let mut text = stdout;
    text.append(stderr);
    trim(text.as_str()).to_owned()
}

/// What a command printed, on either stream.
pub fn describe(output: &CommandOutput) -> (text: String)
    ensures
        text@ == described(utf8_lossy(output.stdout@), utf8_lossy(output.stderr@)),
{
    let stderr = from_utf8_lossy(output.stderr.as_slice());
    describe_texts(from_utf8_lossy(output.stdout.as_slice()), stderr.as_str())
}

/// What is said of a command that failed: what it was for, and what it printed.
pub open spec fn failed_with(prefix: Seq<char>, detail: Seq<char>) -> Seq<char> {
    if detail.len() == 0 {
        prefix
    } else {
        prefix + ": "@ + detail
    }
}

/// What is said of a command that failed, from what it printed.
pub fn failure_text(prefix: &str, detail: &str) -> (text: String)
    ensures
        text@ == failed_with(prefix@, detail@),
{
    let mut text = prefix.to_owned();
    if !detail.is_empty() {
        text.append(": ");
        text.append(detail);
    }
    text
}

/// What is said of a command that failed.
pub open spec fn failure_of(prefix: Seq<char>, output: CommandOutput) -> Seq<char> {
    failed_with(prefix, described(utf8_lossy(output.stdout@), utf8_lossy(output.stderr@)))
}

/// What is said of a command that failed.
pub fn failure(prefix: &str, output: &CommandOutput) -> (text: String)
    ensures
        text@ == failure_of(prefix@, *output),
{
    failure_text(prefix, describe(output).as_str())
}

/// What is said where the command of Tailscale cannot be started.
pub fn cannot_run(reason: &str) -> (text: String)
    ensures
        text@ == "Could not run Tailscale: "@ + reason@,
{
    let mut text = "Could not run Tailscale: ".to_owned();
    text.append(reason);
    text
}

/// The arguments that ask for Tailscale's status.
pub fn status_args() -> (args: [&'static str; 2])
    ensures
        args@[0]@ == "status"@,
        args@[1]@ == "--json"@,
{
    ["status", "--json"]
}

/// The text of the status that Tailscale printed.
pub fn status(output: &CommandOutput) -> (result: Result<String, String>)
    ensures
        outcome_view_of(result) == (if output.success {
            Ok(utf8_lossy(output.stdout@))
        } else {
            Err(failure_of("Tailscale is not reachable"@, *output))
        }),
{
    if !output.success {
        return Err(failure("Tailscale is not reachable", output));
    }
    Ok(from_utf8_lossy(output.stdout.as_slice()))
}

/// What a result says, over views.
pub open spec fn outcome_view_of(result: Result<String, String>) -> Result<Seq<char>, Seq<char>> {
    match result {
        Ok(text) => Ok(text@),
        Err(message) => Err(message@),
    }
}

/// A name without the spaces around it and the dots behind it.
pub open spec fn undotted(name: Seq<char>) -> Seq<char> {
    strip_back(trimmed(name), Trim::Only('.'))
}

fn undot<'a>(name: &'a str) -> (text: &'a str)
    ensures
        text@ == undotted(name@),
{
    strip_back_of(trim(name), Trim::Only('.'))
}

/// The name of this machine: its own, or else its host name in lower case below the suffix.
pub open spec fn name_of(
    dns_name: Option<Seq<char>>,
    host_name: Option<Seq<char>>,
    suffix: Option<Seq<char>>,
) -> Option<Seq<char>> {
    match dns_name {
        Some(name) => if undotted(name).len() > 0 {
            Some(undotted(name))
        } else {
            name_below(host_name, suffix)
        },
        None => name_below(host_name, suffix),
    }
}

/// The host name in lower case below the suffix, where both are known.
pub open spec fn name_below(host_name: Option<Seq<char>>, suffix: Option<Seq<char>>) -> Option<
    Seq<char>,
> {
    match (host_name, suffix) {
        (Some(host), Some(suffix)) => if trimmed(host).len() > 0 && undotted(suffix).len() > 0 {
            Some(lowercase(trimmed(host)) + "."@ + undotted(suffix))
        } else {
            None
        },
        _ => None,
    }
}

/// A host name below a suffix.
pub fn below(host: String, suffix: &str) -> (name: String)
    ensures
        name@ == host@ + "."@ + suffix@,
{
    let mut name = host;
    name.append(".");
    name.append(suffix);
    name
}

fn name_below_of(host_name: &Option<String>, suffix: &Option<String>) -> (name: Option<String>)
    ensures
        owned(name) == name_below(owned(*host_name), owned(*suffix)),
{
    match (host_name, suffix) {
        (Some(host), Some(suffix)) => {
            let host = trim(host.as_str());
            let suffix = undot(suffix.as_str());
            if host.is_empty() || suffix.is_empty() {
                None
            } else {
                Some(below(to_lowercase(host), suffix))
            }
        },
        _ => None,
    }
}

/// The name that a status gives this machine.
pub open spec fn status_name(file: StatusFile) -> Option<Seq<char>> {
    match file.node {
        Some(node) => name_of(
            owned(node.dns_name),
            owned(node.host_name),
            owned(file.magic_dns_suffix),
        ),
        None => None,
    }
}

/// What the status that Tailscale printed says. `parsed` is what was read of it, or the reason
/// why it could not be read.
pub fn parse_status(parsed: Result<StatusFile, String>) -> (result: Result<TailscaleStatus, String>)
    ensures
        match (parsed, result) {
            (Err(reason), Err(message)) => message@ == "Tailscale returned unreadable status: "@
                + reason@,
            (Ok(file), Ok(status)) => {
                &&& file.backend_state matches Some(state) && trimmed(state@).len() > 0
                    && status@ == (TailscaleModel {
                    backend_state: state@,
                    dns_name: status_name(file),
                })
            },
            (Ok(file), Err(message)) => {
                &&& !(file.backend_state matches Some(state) && trimmed(state@).len() > 0)
                &&& message@ == "Tailscale did not report its state"@
            },
            _ => false,
        },
{
    let file = match parsed {
        Ok(file) => file,
        Err(reason) => {
            let mut message = "Tailscale returned unreadable status: ".to_owned();
            message.append(reason.as_str());
            return Err(message);
        },
    };
    let backend_state = match file.backend_state {
        Some(state) => {
            if trim(state.as_str()).is_empty() {
                return Err("Tailscale did not report its state".to_owned());
            }
            state
        },
        None => {
            return Err("Tailscale did not report its state".to_owned());
        },
    };
    let dns_name = match &file.node {
        Some(node) => {
            let own = match &node.dns_name {
                Some(name) => {
                    let name = undot(name.as_str());
                    if name.is_empty() {
                        None
                    } else {
                        Some(name.to_owned())
                    }
                },
                None => None,
            };
            match own {
                Some(name) => Some(name),
                None => name_below_of(&node.host_name, &file.magic_dns_suffix),
            }
        },
        None => None,
    };
    Ok(TailscaleStatus { backend_state, dns_name })
}

/// The address that a port of this machine is proxied to.
pub open spec fn proxy_address(port: u16) -> Seq<char> {
    "http://127.0.0.1:"@ + decimal(port as nat)
}

/// The address that a port of this machine is proxied to.
pub fn proxy_target(port: u16) -> (target: String)
    ensures
        target@ == proxy_address(port),
{
    let mut target = "http://127.0.0.1:".to_owned();
    target.append(decimal_of(port as u64).as_str());
    target
}

/// Different ports are proxied to different addresses, so a recorded route is never taken for
/// that of another port.
pub proof fn proxy_targets_differ(a: u16, b: u16)
    requires
        proxy_address(a) == proxy_address(b),
    ensures
        a == b,
{
    let head = "http://127.0.0.1:"@;
    let x = decimal(a as nat);
    let y = decimal(b as nat);
    assert(x =~= (head + x).skip(head.len() as int));
    assert(y =~= (head + y).skip(head.len() as int));
    decimal_is_injective(a as nat, b as nat);
}

/// The arguments that expose a port at the root of this machine's address.
pub fn serve_set_args(port: u16) -> (args: Vec<String>)
    ensures
        texts(args@) == seq!["serve"@, "--bg"@, "--set-path"@, "/"@, proxy_address(port)],
{
    let mut args: Vec<String> = Vec::new();
    args.push("serve".to_owned());
    args.push("--bg".to_owned());
    args.push("--set-path".to_owned());
    args.push("/".to_owned());
    args.push(proxy_target(port));
    assert(texts(args@) =~= seq![
        "serve"@,
        "--bg"@,
        "--set-path"@,
        "/"@,
        proxy_address(port),
    ]);
    args
}

/// Whether a port was exposed.
pub fn serve_set(output: &CommandOutput) -> (result: Result<(), String>)
    ensures
        outcome_view(result) == (if output.success {
            Ok(())
        } else {
            Err(failure_of("Could not expose Swapper through Tailscale Serve"@, *output))
        }),
{
    if !output.success {
        return Err(failure("Could not expose Swapper through Tailscale Serve", output));
    }
    Ok(())
}

/// The arguments that ask for what Tailscale serves.
pub fn root_route_args() -> (args: [&'static str; 3])
    ensures
        args@[0]@ == "serve"@,
        args@[1]@ == "status"@,
        args@[2]@ == "--json"@,
{
    ["serve", "status", "--json"]
}

/// The first of `members` whose name is `key`, whatever its case.
pub open spec fn member_folded(members: Seq<(Seq<char>, JsonView)>, key: Seq<char>) -> Option<
    JsonView,
>
    decreases members.len(),
{
    if members.len() == 0 {
        None
    } else if same_folded(members[0].0, key) {
        Some(members[0].1)
    } else {
        member_folded(members.skip(1), key)
    }
}

/// What the routes say of the root of the machine `dns_name`'s HTTPS address.
pub open spec fn route_of(config: JsonView, dns_name: Seq<char>) -> Result<RouteModel, Seq<char>> {
    match config.get("Web"@) {
        None => Ok(RouteModel::Vacant),
        Some(JsonView::Object(servers)) => {
            let host_port = strip_back(dns_name, Trim::Only('.')) + ":443"@;
            match member_folded(servers, host_port) {
                None => Ok(RouteModel::Vacant),
                Some(server) => match server.get2("Handlers"@, "/"@) {
                    None => Ok(RouteModel::Vacant),
                    Some(root) => match text_in(root.get("Proxy"@)) {
                        Some(target) => Ok(RouteModel::Proxy(target)),
                        None => Ok(RouteModel::Other),
                    },
                },
            }
        },
        Some(_) => Err("Tailscale returned invalid Serve routes"@),
    }
}

/// What the routes say of a root, over views.
pub open spec fn route_view(result: Result<RootRoute, String>) -> Result<RouteModel, Seq<char>> {
    match result {
        Ok(route) => Ok(route@),
        Err(message) => Err(message@),
    }
}

fn find_member<'a>(members: &'a Vec<(String, Json)>, key: &str) -> (found: Option<&'a Json>)
    ensures
        crate::json::json_view(found) == member_folded(Json::members_view(members@), key@),
{
    let ghost shown = Json::members_view(members@);
    let mut i: usize = 0;
    assert(shown.skip(0) == shown);
    while i < members.len()
        invariant
            i <= members@.len(),
            shown == Json::members_view(members@),
            member_folded(shown, key@) == member_folded(shown.skip(i as int), key@),
        decreases members@.len() - i,
    {
        assert(shown.skip(i as int)[0] == shown[i as int]);
        if eq_ignore_ascii_case(members[i].0.as_str(), key) {
            return Some(&members[i].1);
        }
        assert(shown.skip(i as int).skip(1) == shown.skip(i + 1));
        i = i + 1;
    }
    assert(shown.skip(i as int).len() == 0);
    None
}

/// What the routes say of the root of the machine `dns_name`'s HTTPS address.
pub fn route_in(config: &Json, dns_name: &str) -> (result: Result<RootRoute, String>)
    ensures
        route_view(result) == route_of(config@, dns_name@),
{
    let web = match config.get("Web") {
        None => {
            return Ok(RootRoute::Vacant);
        },
        Some(web) => web,
    };
    let servers = match web {
        Json::Object(servers) => {
            proof {
                Json::lemma_object(*servers);
            }
            servers
        },
        _ => {
            return Err("Tailscale returned invalid Serve routes".to_owned());
        },
    };
    let mut host_port = strip_back_of(dns_name, Trim::Only('.')).to_owned();
    host_port.append(":443");
    let server = match find_member(servers, host_port.as_str()) {
        None => {
            return Ok(RootRoute::Vacant);
        },
        Some(server) => server,
    };
    let root = match server.get2("Handlers", "/") {
        None => {
            return Ok(RootRoute::Vacant);
        },
        Some(root) => root,
    };
    let target = match root.get("Proxy") {
        Some(proxy) => proxy.text(),
        None => None,
    };
    match target {
        Some(target) => Ok(RootRoute::Proxy(target.to_owned())),
        None => Ok(RootRoute::Other),
    }
}

/// What the text of the routes says of a root: nothing is served where it is blank or null.
pub open spec fn parsed_route(body: Seq<char>, dns_name: Seq<char>) -> Result<RouteModel, Seq<char>> {
    if trimmed(body).len() == 0 || trimmed(body) == "null"@ {
        Ok(RouteModel::Vacant)
    } else {
        match json_parsed(body) {
            Ok(config) => route_of(config, dns_name),
            Err(reason) => Err("Tailscale returned unreadable Serve routes: "@ + reason),
        }
    }
}

/// What the text of the routes says of the root of the machine `dns_name`'s HTTPS address.
pub fn parse_root_route(body: &str, dns_name: &str) -> (result: Result<RootRoute, String>)
    ensures
        route_view(result) == parsed_route(body@, dns_name@),
{
    let text = trim(body);
    if text.is_empty() || same(text, "null") {
        return Ok(RootRoute::Vacant);
    }
    match parse(body) {
        Ok(config) => route_in(&config, dns_name),
        Err(reason) => {
            let mut message = "Tailscale returned unreadable Serve routes: ".to_owned();
            message.append(reason.as_str());
            Err(message)
        },
    }
}

/// What Tailscale serves at the root of the machine `dns_name`'s HTTPS address, from what the
/// command printed.
pub fn root_route(output: &CommandOutput, dns_name: &str) -> (result: Result<RootRoute, String>)
    ensures
        route_view(result) == (if output.success {
            parsed_route(utf8_lossy(output.stdout@), dns_name@)
        } else {
            Err(failure_of("Could not inspect Tailscale Serve routes"@, *output))
        }),
{
    if !output.success {
        return Err(failure("Could not inspect Tailscale Serve routes", output));
    }
    parse_root_route(from_utf8_lossy(output.stdout.as_slice()).as_str(), dns_name)
}

/// The arguments that remove what is served at the root.
pub fn serve_off_args() -> (args: [&'static str; 4])
    ensures
        args@[0]@ == "serve"@,
        args@[1]@ == "--set-path"@,
        args@[2]@ == "/"@,
        args@[3]@ == "off"@,
{
    ["serve", "--set-path", "/", "off"]
}

/// Whether a route was removed, from whether the command succeeded and what it printed. A route
/// that was not there counts as removed.
pub fn route_removed(success: bool, detail: &str) -> (result: Result<(), String>)
    ensures
        outcome_view(result) == (if success || occurs(detail@, "does not exist"@) {
            Ok(())
        } else {
            Err(failed_with("Could not remove the Tailscale Serve route"@, detail@))
        }),
{
    if success || contains_text(detail, "does not exist") {
        Ok(())
    } else {
        Err(failure_text("Could not remove the Tailscale Serve route", detail))
    }
}

/// Whether a route was removed.
pub fn serve_off(output: &CommandOutput) -> (result: Result<(), String>)
    ensures
        outcome_view(result) == ({
            let detail = described(utf8_lossy(output.stdout@), utf8_lossy(output.stderr@));
            if output.success || occurs(detail, "does not exist"@) {
                Ok(())
            } else {
                Err(failed_with("Could not remove the Tailscale Serve route"@, detail))
            }
        }),
{
    route_removed(output.success, describe(output).as_str())
}

/// The address of a machine; a name without a domain has none.
pub open spec fn address_of(dns_name: Seq<char>) -> Option<Seq<char>> {
    if undotted(dns_name).contains('.') {
        Some("https://"@ + undotted(dns_name))
    } else {
        None
    }
}

/// The address of a machine; a name without a domain has none.
pub fn address_for(dns_name: &str) -> (address: Option<String>)
    ensures
        owned(address) == address_of(dns_name@),
{
    let host = undot(dns_name);
    if !contains_char(host, '.') {
        return None;
    }
    let mut address = "https://".to_owned();
    address.append(host);
    Some(address)
}

proof fn lemma_member_folded(members: Seq<(Seq<char>, JsonView)>, key: Seq<char>, k: int)
    requires
        0 <= k <= members.len(),
        k < members.len() ==> same_folded(members[k].0, key),
        forall|j: int| 0 <= j < k ==> !same_folded((#[trigger] members[j]).0, key),
    ensures
        member_folded(members, key) == if k < members.len() {
            Some(members[k].1)
        } else {
            None
        },
    decreases members.len(),
{
    if members.len() > 0 && k > 0 {
        let rest = members.skip(1);
        assert(!same_folded(members[0].0, key));
        assert forall|j: int| 0 <= j < k - 1 implies !same_folded((#[trigger] rest[j]).0, key) by {
            assert(rest[j] == members[j + 1]);
        }
        lemma_member_folded(rest, key, k - 1);
    }
}

/// What stands at the root of a machine's HTTPS address: the handler of the first server whose name
/// is the machine's with the HTTPS port, whatever its case. Only where there is none is the root
/// vacant, and routes that are no object are never taken for none.
pub proof fn root_handler_is_seen(config: JsonView, machine: Seq<char>, servers: JsonView, k: int)
    requires
        machine.len() > 0 ==> machine.last() != '.',
        config.get("Web"@) == Some(servers),
        servers matches JsonView::Object(members) ==> 0 <= k <= members.len() && (k < members.len()
            ==> same_folded(members[k].0, machine + ":443"@)) && forall|j: int|
            0 <= j < k ==> !same_folded((#[trigger] members[j]).0, machine + ":443"@),
    ensures
        match servers {
            JsonView::Object(members) => if k < members.len() && members[k].1.get2(
                "Handlers"@,
                "/"@,
            ) is Some {
                let root = members[k].1.get2("Handlers"@, "/"@)->Some_0;
                match root.get("Proxy"@) {
                    Some(JsonView::Text(target)) => route_of(config, machine) == Ok::<
                        RouteModel,
                        Seq<char>,
                    >(RouteModel::Proxy(target)),
                    _ => route_of(config, machine) == Ok::<RouteModel, Seq<char>>(
                        RouteModel::Other,
                    ),
                }
            } else {
                route_of(config, machine) == Ok::<RouteModel, Seq<char>>(RouteModel::Vacant)
            },
            _ => route_of(config, machine) is Err,
        },
{
    assert(strip_back(machine, Trim::Only('.')) == machine);
    if let JsonView::Object(members) = servers {
        lemma_member_folded(members, machine + ":443"@, k);
    }
}

/// Routes that cannot be read are never taken for a vacant root; only a blank text and `null` are.
pub proof fn unreadable_routes_are_not_vacant(body: Seq<char>, machine: Seq<char>)
    ensures
        json_parsed(body) is Err && trimmed(body).len() > 0 && trimmed(body) != "null"@
            ==> parsed_route(body, machine) is Err,
        trimmed(body).len() == 0 || trimmed(body) == "null"@ ==> parsed_route(body, machine) == Ok::<
            RouteModel,
            Seq<char>,
        >(RouteModel::Vacant),
        json_parsed(body) matches Ok(config) ==> trimmed(body).len() > 0 && trimmed(body)
            != "null"@ ==> parsed_route(body, machine) == route_of(config, machine),
{
}

/// A machine goes by the name that it reports, without the dot at its end; only where it reports
/// none by its host name below the network's domain.
pub proof fn machine_goes_by_its_own_name(
    dns_name: Option<Seq<char>>,
    host_name: Option<Seq<char>>,
    suffix: Option<Seq<char>>,
)
    ensures
        match dns_name {
            Some(name) => trimmed(name) == name && name.len() > 0 && name.last() != '.' ==> name_of(
                dns_name,
                host_name,
                suffix,
            ) == Some(name) && name_of(Some(name + "."@), host_name, suffix) == Some(name),
            None => match (host_name, suffix) {
                (Some(host), Some(domain)) => trimmed(domain) == domain && domain.len() > 0
                    && domain.last() != '.' && trimmed(host).len() > 0 ==> name_of(
                    dns_name,
                    host_name,
                    suffix,
                ) == Some(lowercase(trimmed(host)) + "."@ + domain),
                _ => name_of(dns_name, host_name, suffix) is None,
            },
        },
{
    if let Some(name) = dns_name {
        if trimmed(name) == name && name.len() > 0 && name.last() != '.' {
            let dotted = name + "."@;
            reveal_strlit(".");
            assert(dotted =~= name.push('.'));
            lemma_trim_dotted(name);
            assert(dotted.drop_last() =~= name);
            assert(strip_back(dotted, Trim::Only('.')) == strip_back(name, Trim::Only('.')));
        }
    }
}

proof fn lemma_trim_dotted(name: Seq<char>)
    requires
        trimmed(name) == name,
        name.len() > 0,
    ensures
        trimmed(name.push('.')) == name.push('.'),
{
    let dotted = name.push('.');
    let at = trimming_takes_white_space_alone(name);
    let dot = trimming_takes_white_space_alone(dotted);
    assert(!is_white(name[0]));
    assert(dotted[0] == name[0]);
    assert(dotted.last() == '.');
    let n = trimmed(dotted).len() as int;
    if dot > 0 {
        assert(is_white(dotted[0]));
    }
    if dot + n < dotted.len() {
        assert(is_white(dotted[dotted.len() - 1]));
    }
    assert(dotted.subrange(0, dotted.len() as int) =~= dotted);
}

} // verus!
