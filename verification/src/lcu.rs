//! The League client's local API: where it listens and how it is addressed.

use vstd::prelude::*;

use crate::codec::{base64_encode, base64_len, base64_text};
use crate::number::{
    decimal, decimal_is_digits, decimal_of, decimal_reads_back, parse_u16, parse_u32, parsed,
};
use crate::text::{
    after_prefix, eq_ignore_ascii_case, is_white, joined_by, joined_pieces_split_again,
    lemma_utf8_concat, lines, lines_of, owned, same_folded, split, split_on, strip, strip_of,
    strip_prefix, text_without_line_end_is_one_line, trim, trimmed,
    trimming_takes_white_space_alone, utf8_len, view_of, views, words, words_of, Trim,
};
use crate::windows::process::{any_running, running, table_view, texts, SnapshotError, Table};

verus! {

/// Where the League client listens, and the password it asks for.
#[derive(Debug, PartialEq, Eq)]
pub struct LcuEndpoint {
    pub port: u16,
    pub password: String,
    pub protocol: String,
}

/// Where the League client listens, as a mathematical value.
pub struct EndpointModel {
    pub port: u16,
    pub password: Seq<char>,
    pub protocol: Seq<char>,
}

impl View for LcuEndpoint {
    type V = EndpointModel;

    open spec fn view(&self) -> EndpointModel {
        EndpointModel { port: self.port, password: self.password@, protocol: self.protocol@ }
    }
}

impl Clone for LcuEndpoint {
    fn clone(&self) -> (copy: Self)
        ensures
            copy == *self,
    {
        LcuEndpoint {
            port: self.port,
            password: self.password.clone(),
            protocol: self.protocol.clone(),
        }
    }
}

/// The view of an optional endpoint.
pub open spec fn endpoint_view(endpoint: Option<LcuEndpoint>) -> Option<EndpointModel> {
    match endpoint {
        Some(endpoint) => Some(endpoint@),
        None => None,
    }
}

/// Whether a lockfile was written by the League client. Riot writes `LeagueClient`; some builds
/// write `LeagueClientUx`.
pub open spec fn is_league_name(name: Seq<char>) -> bool {
    same_folded(name, "LeagueClient"@) || same_folded(name, "LeagueClientUx"@)
}

/// What the fields of a lockfile say: name, process id, port, password and protocol, each
/// trimmed; fields that follow are ignored.
pub open spec fn lockfile_fields(parts: Seq<Seq<char>>) -> Option<(u32, EndpointModel)> {
    if parts.len() < 5 {
        None
    } else {
        let password = trimmed(parts[3]);
        let protocol = trimmed(parts[4]);
        match (
            parsed(trimmed(parts[1]), u32::MAX as nat),
            parsed(trimmed(parts[2]), u16::MAX as nat),
        ) {
            (Some(pid), Some(port)) => if is_league_name(trimmed(parts[0])) && pid != 0 && port
                != 0 && password.len() > 0 && protocol.len() > 0 {
                Some((pid as u32, EndpointModel { port: port as u16, password, protocol }))
            } else {
                None
            },
            _ => None,
        }
    }
}

/// What the first line of a lockfile says.
pub open spec fn lockfile(body: Seq<char>) -> Option<(u32, EndpointModel)> {
    if lines(body).len() == 0 {
        None
    } else {
        lockfile_fields(split(trimmed(lines(body)[0]), ':'))
    }
}

/// The process id and the endpoint that a lockfile names.
pub fn parse_lockfile(body: &str) -> (result: Option<(u32, LcuEndpoint)>)
    ensures
        match result {
            Some((pid, endpoint)) => lockfile(body@) == Some((pid, endpoint@)),
            None => lockfile(body@) is None,
        },
{
    let all = lines_of(body);
    if all.len() == 0 {
        return None;
    }
    assert(lines(body@)[0] == all@[0]@);
    let parts = split_on(trim(all[0]), ':');
    let ghost fields = split(trimmed(lines(body@)[0]), ':');
    assert(fields == views(parts@));
    if parts.len() < 5 {
        return None;
    }
    assert(forall|i: int| 0 <= i < 5 ==> fields[i] == #[trigger] parts@[i]@);
    let name = trim(parts[0]);
    let pid = match parse_u32(trim(parts[1])) {
        Some(pid) => pid,
        None => {
            return None;
        },
    };
    let port = match parse_u16(trim(parts[2])) {
        Some(port) => port,
        None => {
            return None;
        },
    };
    let password = trim(parts[3]);
    let protocol = trim(parts[4]);
    if !(eq_ignore_ascii_case(name, "LeagueClient") || eq_ignore_ascii_case(name, "LeagueClientUx"))
        || pid == 0 || port == 0 || password.is_empty() || protocol.is_empty() {
        return None;
    }
    Some((pid, LcuEndpoint { port, password: password.to_owned(), protocol: protocol.to_owned() }))
}

/// Where a lockfile may lie: below the local application data where `base` is absent, else
/// below `base`.
#[derive(Debug, PartialEq, Eq)]
pub struct LockfilePath {
    pub base: Option<&'static str>,
    pub below: Vec<&'static str>,
}

/// Where a lockfile may lie, as a mathematical value.
pub struct LockfilePathModel {
    pub base: Option<Seq<char>>,
    pub below: Seq<Seq<char>>,
}

impl View for LockfilePath {
    type V = LockfilePathModel;

    open spec fn view(&self) -> LockfilePathModel {
        LockfilePathModel { base: view_of(self.base), below: views(self.below@) }
    }
}

/// The places where lockfiles may lie, as mathematical values.
pub open spec fn path_models(paths: Seq<LockfilePath>) -> Seq<LockfilePathModel> {
    paths.map_values(|p: LockfilePath| p@)
}

/// The places below the local application data where a lockfile may lie.
pub open spec fn local_candidates() -> Seq<LockfilePathModel> {
    seq![
        LockfilePathModel {
            base: None,
            below: seq!["Riot Games"@, "League of Legends"@, "lockfile"@],
        },
        LockfilePathModel {
            base: None,
            below: seq!["Riot Games"@, "LeagueOfLegends"@, "lockfile"@],
        },
    ]
}

/// The places below a fixed directory where a lockfile may lie.
pub open spec fn fixed_candidates() -> Seq<LockfilePathModel> {
    seq![
        LockfilePathModel {
            base: Some("C:\\Riot Games"@),
            below: seq!["League of Legends"@, "lockfile"@],
        },
        LockfilePathModel {
            base: Some("C:\\Program Files\\Riot Games"@),
            below: seq!["League of Legends"@, "lockfile"@],
        },
        LockfilePathModel {
            base: Some("C:\\Program Files (x86)\\Riot Games"@),
            below: seq!["League of Legends"@, "lockfile"@],
        },
    ]
}

fn local_lockfile(folder: &'static str) -> (path: LockfilePath)
    ensures
        path@ == (LockfilePathModel {
            base: None,
            below: seq!["Riot Games"@, folder@, "lockfile"@],
        }),
{
    let mut below: Vec<&'static str> = Vec::new();
    below.push("Riot Games");
    below.push(folder);
    below.push("lockfile");
    assert(views(below@) =~= seq!["Riot Games"@, folder@, "lockfile"@]);
    LockfilePath { base: None, below }
}

fn fixed_lockfile(base: &'static str) -> (path: LockfilePath)
    ensures
        path@ == (LockfilePathModel {
            base: Some(base@),
            below: seq!["League of Legends"@, "lockfile"@],
        }),
{
    let mut below: Vec<&'static str> = Vec::new();
    below.push("League of Legends");
    below.push("lockfile");
    assert(views(below@) =~= seq!["League of Legends"@, "lockfile"@]);
    LockfilePath { base: Some(base), below }
}

/// The places where a lockfile may lie, in the order in which they are tried. `local` says
/// whether the directory of local application data is known.
pub fn lockfile_candidates(local: bool) -> (candidates: Vec<LockfilePath>)
    ensures
        path_models(candidates@) == (if local {
            local_candidates() + fixed_candidates()
        } else {
            fixed_candidates()
        }),
{
    let mut candidates: Vec<LockfilePath> = Vec::new();
    if local {
        candidates.push(local_lockfile("League of Legends"));
        candidates.push(local_lockfile("LeagueOfLegends"));
    }
    candidates.push(fixed_lockfile("C:\\Riot Games"));
    candidates.push(fixed_lockfile("C:\\Program Files\\Riot Games"));
    candidates.push(fixed_lockfile("C:\\Program Files (x86)\\Riot Games"));
    proof {
        if local {
            assert(path_models(candidates@) =~= local_candidates() + fixed_candidates());
        } else {
            assert(path_models(candidates@) =~= fixed_candidates());
        }
    }
    candidates
}

/// Where a search for the League client is to look next, or what it found.
#[derive(Debug, PartialEq, Eq)]
pub enum Discovery {
    /// Read the lockfile that served last time.
    Remembered,
    /// Read the lockfile candidate of this number.
    Candidate(usize),
    /// Look at the running processes.
    Scan,
    /// The client was found. The candidate that named it, where there was one, is to be
    /// remembered.
    Found { endpoint: LcuEndpoint, remember: Option<usize> },
    NotFound,
}

/// The state of a search, as a mathematical value.
pub enum DiscoveryModel {
    Remembered,
    Candidate(int),
    Scan,
    Found { endpoint: EndpointModel, remember: Option<int> },
    NotFound,
}

impl View for Discovery {
    type V = DiscoveryModel;

    open spec fn view(&self) -> DiscoveryModel {
        match *self {
            Discovery::Remembered => DiscoveryModel::Remembered,
            Discovery::Candidate(i) => DiscoveryModel::Candidate(i as int),
            Discovery::Scan => DiscoveryModel::Scan,
            Discovery::Found { endpoint, remember } => DiscoveryModel::Found {
                endpoint: endpoint@,
                remember: match remember {
                    Some(i) => Some(i as int),
                    None => None,
                },
            },
            Discovery::NotFound => DiscoveryModel::NotFound,
        }
    }
}

/// The search goes on with the candidate `i`, or with the processes after the last one.
pub open spec fn candidate_or_scan(i: int, candidates: int) -> DiscoveryModel {
    if i < candidates {
        DiscoveryModel::Candidate(i)
    } else {
        DiscoveryModel::Scan
    }
}

impl DiscoveryModel {
    /// The search after a look that gave `found`. A search that is over stays as it is.
    pub open spec fn after(self, found: Option<EndpointModel>, candidates: int) -> DiscoveryModel {
        match (self, found) {
            (DiscoveryModel::Found { .. }, _) => self,
            (DiscoveryModel::NotFound, _) => self,
            (DiscoveryModel::Remembered, Some(endpoint)) => DiscoveryModel::Found {
                endpoint,
                remember: None,
            },
            (DiscoveryModel::Candidate(i), Some(endpoint)) => DiscoveryModel::Found {
                endpoint,
                remember: Some(i),
            },
            (DiscoveryModel::Scan, Some(endpoint)) => DiscoveryModel::Found {
                endpoint,
                remember: None,
            },
            (DiscoveryModel::Remembered, None) => candidate_or_scan(0, candidates),
            (DiscoveryModel::Candidate(i), None) => candidate_or_scan(i + 1, candidates),
            (DiscoveryModel::Scan, None) => DiscoveryModel::NotFound,
        }
    }
}

fn next_candidate(i: usize, candidates: usize) -> (next: Discovery)
    ensures
        next@ == candidate_or_scan(i as int, candidates as int),
{
    if i < candidates {
        Discovery::Candidate(i)
    } else {
        Discovery::Scan
    }
}

/// Begins to search for the League client: first where it was found last time, then at each of
/// the candidates, and last among the running processes.
pub fn discover(remembered: bool, candidates: usize) -> (search: Discovery)
    ensures
        search@ == (if remembered {
            DiscoveryModel::Remembered
        } else {
            candidate_or_scan(0, candidates as int)
        }),
{
    if remembered {
        Discovery::Remembered
    } else {
        next_candidate(0, candidates)
    }
}

impl Discovery {
    /// Goes on after a look that gave `found`.
    pub fn proceed(self, found: Option<LcuEndpoint>, candidates: usize) -> (next: Discovery)
        ensures
            next@ == self@.after(endpoint_view(found), candidates as int),
    {
        match (self, found) {
            (Discovery::Found { endpoint, remember }, _) => Discovery::Found { endpoint, remember },
            (Discovery::NotFound, _) => Discovery::NotFound,
            (Discovery::Remembered, Some(endpoint)) => Discovery::Found { endpoint, remember: None },
            (Discovery::Candidate(i), Some(endpoint)) => Discovery::Found {
                endpoint,
                remember: Some(i),
            },
            (Discovery::Scan, Some(endpoint)) => Discovery::Found { endpoint, remember: None },
            (Discovery::Remembered, None) => next_candidate(0, candidates),
            (Discovery::Candidate(i), None) => {
                if i < candidates {
                    next_candidate(i + 1, candidates)
                } else {
                    Discovery::Scan
                }
            },
            (Discovery::Scan, None) => Discovery::NotFound,
        }
    }
}

/// Whether the League Client process itself is alive. Used to tell a client that is still
/// starting (or a stale lockfile) apart from one that is gone.
pub fn league_process_running(table: Table) -> (result: Result<bool, SnapshotError>)
    ensures
        result == running(table_view(table), seq!["LeagueClientUx.exe"@]),
{
    let names: [&str; 1] = ["LeagueClientUx.exe"];
    assert(views(names@) =~= seq!["LeagueClientUx.exe"@]);
    any_running(table, names.as_slice())
}

/// Whether an endpoint speaks without encryption.
pub open spec fn is_plain(endpoint: EndpointModel) -> bool {
    same_folded(endpoint.protocol, "http"@)
}

/// The address of an endpoint's socket.
pub fn socket_url(endpoint: &LcuEndpoint) -> (url: String)
    ensures
        url@ == (if is_plain(endpoint@) {
            "ws"@
        } else {
            "wss"@
        }) + "://127.0.0.1:"@ + decimal(endpoint.port as nat) + "/"@,
{
    let mut url = if eq_ignore_ascii_case(endpoint.protocol.as_str(), "http") {
        "ws".to_owned()
    } else {
        "wss".to_owned()
    };
    url.append("://127.0.0.1:");
    url.append(decimal_of(endpoint.port as u64).as_str());
    url.append("/");
    url
}

/// The scheme of an endpoint's addresses.
pub open spec fn scheme_text(endpoint: EndpointModel) -> Seq<char> {
    if is_plain(endpoint) {
        "http"@
    } else {
        "https"@
    }
}

/// The scheme of an endpoint's addresses: `https` unless the endpoint asks for `http`.
pub fn scheme(endpoint: &LcuEndpoint) -> (text: &'static str)
    ensures
        text@ == scheme_text(endpoint@),
{
    if eq_ignore_ascii_case(endpoint.protocol.as_str(), "http") {
        "http"
    } else {
        "https"
    }
}

/// The header that a local Riot API asks for: the user `riot` with the password.
pub open spec fn basic_credentials(password: Seq<char>) -> Seq<char> {
    "Basic "@ + base64_text(vstd::utf8::encode_utf8("riot:"@ + password))
}

/// The header that a local Riot API asks for.
pub fn basic_authorization(password: &str) -> (header: String)
    requires
        base64_len(5 + utf8_len(password@)) <= isize::MAX,
    ensures
        header@ == basic_credentials(password@),
{
    let mut plain = "riot:".to_owned();
    plain.append(password);
    proof {
        lemma_utf8_concat("riot:"@, password@);
        lemma_riot_len();
    }
    let mut header = "Basic ".to_owned();
    header.append(base64_encode(plain.as_str().as_bytes()).as_str());
    header
}

proof fn lemma_riot_len()
    ensures
        utf8_len("riot:"@) == 5,
{
    reveal_strlit("riot:");
    vstd::utf8::is_ascii_chars_encode_utf8("riot:"@);
}

/// The header that the League client asks for.
pub fn authorization(endpoint: &LcuEndpoint) -> (header: String)
    requires
        base64_len(5 + utf8_len(endpoint.password@)) <= isize::MAX,
    ensures
        header@ == basic_credentials(endpoint.password@),
{
    basic_authorization(endpoint.password.as_str())
}

/// The address of a path of the League client's API.
pub open spec fn api_address(endpoint: EndpointModel, path: Seq<char>) -> Seq<char> {
    scheme_text(endpoint) + "://127.0.0.1:"@ + decimal(endpoint.port as nat) + path
}

/// The address of a path of the League client's API.
pub fn api_url(endpoint: &LcuEndpoint, path: &str) -> (url: String)
    ensures
        url@ == api_address(endpoint@, path@),
{
    let mut url = scheme(endpoint).to_owned();
    url.append("://127.0.0.1:");
    url.append(decimal_of(endpoint.port as u64).as_str());
    url.append(path);
    url
}

/// Whether the process of a lockfile is the League client, from the name of the process with
/// that id.
pub open spec fn is_league_process(name: Option<Seq<char>>) -> bool {
    match name {
        Some(name) => same_folded(name, "LeagueClient.exe"@) || same_folded(
            name,
            "LeagueClientUx.exe"@,
        ),
        None => false,
    }
}

/// Whether the process of a lockfile is the League client.
pub fn league_pid_alive(name: Option<&str>) -> (alive: bool)
    ensures
        alive == is_league_process(view_of(name)),
{
    match name {
        Some(name) => eq_ignore_ascii_case(name, "LeagueClient.exe") || eq_ignore_ascii_case(
            name,
            "LeagueClientUx.exe",
        ),
        None => false,
    }
}

/// The endpoint of a lockfile, if the process it names is still the League client. The lockfile
/// outlives a client shutdown, so the file alone would report a closed client as running.
pub fn read_at(endpoint: LcuEndpoint, name: Option<&str>) -> (result: Option<LcuEndpoint>)
    ensures
        endpoint_view(result) == (if is_league_process(view_of(name)) {
            Some(endpoint@)
        } else {
            None
        }),
{
    if league_pid_alive(name) {
        Some(endpoint)
    } else {
        None
    }
}

/// Nanoseconds between two looks at the running processes.
pub const PROCESS_SCAN_INTERVAL: u128 = 10_000_000_000;

/// Whether the running processes may be looked at, given the nanoseconds since the last look.
pub fn scan_due(elapsed: Option<u128>) -> (due: bool)
    ensures
        due == match elapsed {
            Some(elapsed) => elapsed >= PROCESS_SCAN_INTERVAL,
            None => true,
        },
{
    match elapsed {
        Some(elapsed) => elapsed >= PROCESS_SCAN_INTERVAL,
        None => true,
    }
}

/// A running process with its command line.
pub struct CommandLine {
    pub name: String,
    pub parts: Vec<String>,
}

/// A running process with its command line, as a mathematical value.
pub struct CommandLineModel {
    pub name: Seq<char>,
    pub parts: Seq<Seq<char>>,
}

impl View for CommandLine {
    type V = CommandLineModel;

    open spec fn view(&self) -> CommandLineModel {
        CommandLineModel { name: self.name@, parts: texts(self.parts@) }
    }
}

/// The running processes as mathematical values.
pub open spec fn command_models(processes: Seq<CommandLine>) -> Seq<CommandLineModel> {
    processes.map_values(|p: CommandLine| p@)
}

/// The parts of a command line with a space between each two.
pub open spec fn joined(parts: Seq<Seq<char>>) -> Seq<char>
    decreases parts.len(),
{
    if parts.len() == 0 {
        Seq::empty()
    } else if parts.len() == 1 {
        parts[0]
    } else {
        joined(parts.drop_last()) + " "@ + parts.last()
    }
}

fn join(parts: &Vec<String>) -> (command: String)
    ensures
        command@ == joined(texts(parts@)),
{
    let ghost all = texts(parts@);
    if parts.len() == 0 {
        let command = "".to_owned();
        proof {
            reveal_strlit("");
        }
        assert(command@ == Seq::<char>::empty());
        return command;
    }
    assert(all[0] == parts@[0]@);
    let mut command = parts[0].clone();
    let mut i: usize = 1;
    while i < parts.len()
        invariant
            1 <= i <= parts@.len(),
            all == texts(parts@),
            command@ == joined(all.take(i as int)),
        decreases parts@.len() - i,
    {
        assert(all[i as int] == parts@[i as int]@);
        assert(all.take(i + 1).drop_last() == all.take(i as int));
        command.append(" ");
        command.append(parts[i].as_str());
        i = i + 1;
    }
    assert(all.take(i as int) == all);
    command
}

/// The value of the first of `tokens` that begins with `key`, without the quotes around it.
pub open spec fn first_value(tokens: Seq<Seq<char>>, key: Seq<char>) -> Option<Seq<char>>
    decreases tokens.len(),
{
    if tokens.len() == 0 {
        None
    } else {
        match after_prefix(strip(tokens[0], Trim::Only('"')), key) {
            Some(value) => Some(strip(value, Trim::Only('"'))),
            None => first_value(tokens.skip(1), key),
        }
    }
}

/// The value of the first word of a command line that begins with `key`, without the quotes
/// around it.
pub fn arg_value(command: &str, key: &str) -> (value: Option<String>)
    ensures
        owned(value) == first_value(words(command@), key@),
{
    let tokens = words_of(command);
    let ghost all = words(command@);
    let mut i: usize = 0;
    assert(all.skip(0) == all);
    while i < tokens.len()
        invariant
            i <= tokens@.len(),
            all == views(tokens@),
            all == words(command@),
            first_value(all, key@) == first_value(all.skip(i as int), key@),
        decreases tokens@.len() - i,
    {
        assert(all[i as int] == tokens@[i as int]@);
        assert(all.skip(i as int)[0] == all[i as int]);
        assert(all.skip(i as int).skip(1) == all.skip(i + 1));
        if let Some(value) = strip_prefix(strip_of(tokens[i], Trim::Only('"')), key) {
            return Some(strip_of(value, Trim::Only('"')).to_owned());
        }
        i = i + 1;
    }
    assert(all.skip(i as int).len() == 0);
    None
}

/// What the command lines of the running processes say of where the League client listens: the
/// first client with a port and a password counts, and one without either argument ends the
/// look.
pub open spec fn scanned(processes: Seq<CommandLineModel>) -> Option<EndpointModel>
    decreases processes.len(),
{
    if processes.len() == 0 {
        None
    } else if !same_folded(processes[0].name, "LeagueClientUx.exe"@) {
        scanned(processes.skip(1))
    } else {
        let command = words(joined(processes[0].parts));
        match first_value(command, "--app-port="@) {
            None => None,
            Some(digits) => match parsed(digits, u16::MAX as nat) {
                None => None,
                Some(port) => match first_value(command, "--remoting-auth-token="@) {
                    None => None,
                    Some(password) => if port == 0 || password.len() == 0 {
                        scanned(processes.skip(1))
                    } else {
                        Some(EndpointModel { port: port as u16, password, protocol: "https"@ })
                    },
                },
            },
        }
    }
}

/// What the command lines of the running processes say of where the League client listens.
pub fn scan_system(processes: &Vec<CommandLine>) -> (result: Option<LcuEndpoint>)
    ensures
        endpoint_view(result) == scanned(command_models(processes@)),
{
    let ghost all = command_models(processes@);
    let mut i: usize = 0;
    assert(all.skip(0) == all);
    while i < processes.len()
        invariant
            i <= processes@.len(),
            all == command_models(processes@),
            scanned(all) == scanned(all.skip(i as int)),
        decreases processes@.len() - i,
    {
        let process = &processes[i];
        assert(all.skip(i as int)[0] == process@);
        assert(all.skip(i as int).skip(1) == all.skip(i + 1));
        i = i + 1;
        if !eq_ignore_ascii_case(process.name.as_str(), "LeagueClientUx.exe") {
            continue ;
        }
        let command = join(&process.parts);
        let digits = match arg_value(command.as_str(), "--app-port=") {
            Some(digits) => digits,
            None => {
                return None;
            },
        };
        let port = match parse_u16(digits.as_str()) {
            Some(port) => port,
            None => {
                return None;
            },
        };
        let password = match arg_value(command.as_str(), "--remoting-auth-token=") {
            Some(password) => password,
            None => {
                return None;
            },
        };
        if port == 0 || password.as_str().is_empty() {
            continue ;
        }
        return Some(LcuEndpoint { port, password, protocol: "https".to_owned() });
    }
    assert(all.skip(i as int).len() == 0);
    None
}

/// What the League client writes into its lockfile is read from it: the process, the port, the
/// password and the protocol.
pub proof fn written_lockfile_is_read(
    name: Seq<char>,
    pid: u32,
    port: u16,
    password: Seq<char>,
    protocol: Seq<char>,
)
    requires
        same_folded(name, "LeagueClient"@) || same_folded(name, "LeagueClientUx"@),
        pid != 0,
        port != 0,
        password.len() > 0,
        protocol.len() > 0,
        trimmed(name) == name && trimmed(password) == password && trimmed(protocol) == protocol,
        !name.contains(':') && !password.contains(':') && !protocol.contains(':'),
        ({
            let body = joined_by(
                seq![name, decimal(pid as nat), decimal(port as nat), password, protocol],
                ':',
            );
            !body.contains('\n') && trimmed(body) == body
        }),
    ensures
        lockfile(
            joined_by(
                seq![name, decimal(pid as nat), decimal(port as nat), password, protocol],
                ':',
            ),
        ) == Some((pid, EndpointModel { port, password, protocol })),
{
    let parts = seq![name, decimal(pid as nat), decimal(port as nat), password, protocol];
    let body = joined_by(parts, ':');
    decimal_reads_back(pid as nat, u32::MAX as nat);
    decimal_reads_back(port as nat, u16::MAX as nat);
    decimal_is_digits(pid as nat);
    decimal_is_digits(port as nat);
    lemma_digits_trimmed(decimal(pid as nat));
    lemma_digits_trimmed(decimal(port as nat));
    assert(!decimal(pid as nat).contains(':') && !decimal(port as nat).contains(':'));
    assert forall|k: int| 0 <= k < parts.len() implies !(#[trigger] parts[k]).contains(':') by {}
    joined_pieces_split_again(parts, ':');
    assert(body.len() > 0) by {
        assert(joined_by(parts, ':') == parts[0] + seq![':'] + joined_by(parts.skip(1), ':'));
    }
    text_without_line_end_is_one_line(body);
}

proof fn lemma_digits_trimmed(s: Seq<char>)
    requires
        s.len() > 0,
        forall|k: int| 0 <= k < s.len() ==> '0' <= #[trigger] s[k] <= '9',
    ensures
        trimmed(s) == s,
{
    let at = trimming_takes_white_space_alone(s);
    assert(!is_white(s[0]));
    assert(!is_white(s[s.len() - 1]));
    if at > 0 {
        assert(is_white(s[0]));
    }
    if at + trimmed(s).len() < s.len() {
        assert(is_white(s[s.len() - 1]));
    }
    assert(s.subrange(0, s.len() as int) =~= s);
}

impl DiscoveryModel {
    /// The search after so many looks that found nothing.
    pub open spec fn after_failures(self, looks: nat, candidates: int) -> DiscoveryModel
        decreases looks,
    {
        if looks == 0 {
            self
        } else {
            self.after_failures((looks - 1) as nat, candidates).after(None, candidates)
        }
    }
}

/// Every place is looked at, each once and in its order, before the search gives up: the candidates
/// one after the other and then the running processes. What a look finds is what the search finds,
/// and only a candidate that named the client is remembered.
pub proof fn search_looks_everywhere(
    candidates: int,
    looks: nat,
    endpoint: EndpointModel,
)
    requires
        0 <= candidates,
    ensures
        ({
            let start = if candidates > 0 {
                DiscoveryModel::Candidate(0)
            } else {
                DiscoveryModel::Scan
            };
            let search = start.after_failures(looks, candidates);
            &&& DiscoveryModel::Remembered.after(None, candidates) == start
            &&& looks < candidates ==> search == DiscoveryModel::Candidate(looks as int)
                && search.after(Some(endpoint), candidates) == (DiscoveryModel::Found {
                endpoint,
                remember: Some(looks as int),
            })
            &&& looks == candidates ==> search == DiscoveryModel::Scan && search.after(
                Some(endpoint),
                candidates,
            ) == (DiscoveryModel::Found { endpoint, remember: None })
            &&& looks > candidates ==> search == DiscoveryModel::NotFound
            &&& DiscoveryModel::Remembered.after(Some(endpoint), candidates)
                == (DiscoveryModel::Found { endpoint, remember: None })
        }),
    decreases looks,
{
    if looks > 0 {
        search_looks_everywhere(candidates, (looks - 1) as nat, endpoint);
    }
}

/// What a look at the running processes finds is what the command line of a League client says: the
/// port and the password of its arguments, over an encrypted connection.
pub proof fn scanned_endpoint_is_a_clients_own(processes: Seq<CommandLineModel>)
    ensures
        scanned(processes) matches Some(endpoint) ==> exists|k: int|
            {
                let command = words(joined((#[trigger] processes[k]).parts));
                &&& 0 <= k < processes.len()
                &&& same_folded(processes[k].name, "LeagueClientUx.exe"@)
                &&& endpoint.port != 0 && endpoint.password.len() > 0
                &&& endpoint.protocol == "https"@
                &&& first_value(command, "--app-port="@) matches Some(digits) && parsed(
                    digits,
                    u16::MAX as nat,
                ) == Some(endpoint.port as nat)
                &&& first_value(command, "--remoting-auth-token="@) == Some(endpoint.password)
            },
        (forall|k: int|
            0 <= k < processes.len() ==> !same_folded(
                (#[trigger] processes[k]).name,
                "LeagueClientUx.exe"@,
            )) ==> scanned(processes) is None,
    decreases processes.len(),
{
    if processes.len() > 0 {
        let rest = processes.skip(1);
        scanned_endpoint_is_a_clients_own(rest);
        assert forall|k: int| 0 <= k < rest.len() implies rest[k] == processes[k + 1] by {}
        if let Some(endpoint) = scanned(processes) {
            if scanned(rest) == Some(endpoint) && exists|k: int|
                {
                    let command = words(joined((#[trigger] rest[k]).parts));
                    &&& 0 <= k < rest.len()
                    &&& same_folded(rest[k].name, "LeagueClientUx.exe"@)
                    &&& endpoint.port != 0 && endpoint.password.len() > 0
                    &&& endpoint.protocol == "https"@
                    &&& first_value(command, "--app-port="@) matches Some(digits) && parsed(
                        digits,
                        u16::MAX as nat,
                    ) == Some(endpoint.port as nat)
                    &&& first_value(command, "--remoting-auth-token="@) == Some(endpoint.password)
                } {
                let k = choose|k: int|
                    {
                        let command = words(joined((#[trigger] rest[k]).parts));
                        &&& 0 <= k < rest.len()
                        &&& same_folded(rest[k].name, "LeagueClientUx.exe"@)
                        &&& endpoint.port != 0 && endpoint.password.len() > 0
                        &&& endpoint.protocol == "https"@
                        &&& first_value(command, "--app-port="@) matches Some(digits) && parsed(
                            digits,
                            u16::MAX as nat,
                        ) == Some(endpoint.port as nat)
                        &&& first_value(command, "--remoting-auth-token="@) == Some(
                            endpoint.password,
                        )
                    };
                assert(processes[k + 1] == rest[k]);
            } else {
                assert(processes[0] == processes[0]);
            }
        }
    }
}

/// Nothing is read from a lockfile but what the League client writes: at least five fields, one of
/// its names, numbers that are not zero, a password and a protocol.
pub proof fn only_a_whole_lockfile_is_read(body: Seq<char>)
    requires
        lockfile(body) is Some,
    ensures
        ({
            let fields = split(trimmed(lines(body)[0]), ':');
            let (pid, endpoint) = lockfile(body)->Some_0;
            &&& lines(body).len() > 0
            &&& fields.len() >= 5
            &&& same_folded(trimmed(fields[0]), "LeagueClient"@) || same_folded(
                trimmed(fields[0]),
                "LeagueClientUx"@,
            )
            &&& parsed(trimmed(fields[1]), u32::MAX as nat) == Some(pid as nat) && pid != 0
            &&& parsed(trimmed(fields[2]), u16::MAX as nat) == Some(endpoint.port as nat)
                && endpoint.port != 0
            &&& trimmed(fields[3]) == endpoint.password && endpoint.password.len() > 0
            &&& trimmed(fields[4]) == endpoint.protocol && endpoint.protocol.len() > 0
        }),
{
}

/// An argument is read from the first word that begins with its key, whatever follows.
pub proof fn argument_is_read(tokens: Seq<Seq<char>>, key: Seq<char>, value: Seq<char>, k: int)
    requires
        0 <= k < tokens.len(),
        strip(tokens[k], Trim::Only('"')) == key + value,
        forall|j: int|
            0 <= j < k ==> !key.is_prefix_of(strip(#[trigger] tokens[j], Trim::Only('"'))),
    ensures
        first_value(tokens, key) == Some(strip(value, Trim::Only('"'))),
    decreases tokens.len(),
{
    let whole = key + value;
    assert(whole.subrange(0, key.len() as int) =~= key);
    assert(whole.skip(key.len() as int) =~= value);
    if k > 0 {
        let rest = tokens.skip(1);
        assert(!key.is_prefix_of(strip(tokens[0], Trim::Only('"'))));
        assert forall|j: int| 0 <= j < k - 1 implies !key.is_prefix_of(
            strip(#[trigger] rest[j], Trim::Only('"')),
        ) by {
            assert(rest[j] == tokens[j + 1]);
        }
        argument_is_read(rest, key, value, k - 1);
    }
}

/// The first League client among the processes is found where its command line names a port and a
/// password.
pub proof fn scan_finds_the_first_client(
    processes: Seq<CommandLineModel>,
    k: int,
    port: u16,
    password: Seq<char>,
)
    requires
        0 <= k < processes.len(),
        forall|j: int|
            0 <= j < k ==> !same_folded((#[trigger] processes[j]).name, "LeagueClientUx.exe"@),
        same_folded(processes[k].name, "LeagueClientUx.exe"@),
        first_value(words(joined(processes[k].parts)), "--app-port="@) == Some(decimal(port as nat)),
        first_value(words(joined(processes[k].parts)), "--remoting-auth-token="@) == Some(password),
        port != 0,
        password.len() > 0,
    ensures
        scanned(processes) == Some(EndpointModel { port, password, protocol: "https"@ }),
    decreases processes.len(),
{
    decimal_reads_back(port as nat, u16::MAX as nat);
    if k > 0 {
        let rest = processes.skip(1);
        assert(!same_folded(processes[0].name, "LeagueClientUx.exe"@));
        assert forall|j: int| 0 <= j < k - 1 implies !same_folded(
            (#[trigger] rest[j]).name,
            "LeagueClientUx.exe"@,
        ) by {
            assert(rest[j] == processes[j + 1]);
        }
        scan_finds_the_first_client(rest, k - 1, port, password);
    }
}

/// The League client's API is addressed on this machine at its port, encrypted unless it asks for
/// plain `http`, whatever the case.
pub proof fn api_is_addressed_as_it_asks(endpoint: EndpointModel, path: Seq<char>)
    ensures
        same_folded(endpoint.protocol, "http"@) ==> api_address(endpoint, path) == "http"@
            + "://127.0.0.1:"@ + decimal(endpoint.port as nat) + path,
        !same_folded(endpoint.protocol, "http"@) ==> api_address(endpoint, path) == "https"@
            + "://127.0.0.1:"@ + decimal(endpoint.port as nat) + path,
        is_league_process(Some("LeagueClient.exe"@)) && is_league_process(
            Some("LeagueClientUx.exe"@),
        ),
        !is_league_process(None),
{
}

/// The League client is asked as the user `riot` with its password, and its lockfile is looked for
/// in the folders that it is installed to.
pub proof fn client_is_asked_as_riot(password: Seq<char>)
    ensures
        basic_credentials(password) == "Basic "@ + base64_text(
            vstd::utf8::encode_utf8("riot:"@ + password),
        ),
        local_candidates() =~~= seq![
            LockfilePathModel {
                base: None,
                below: seq!["Riot Games"@, "League of Legends"@, "lockfile"@],
            },
            LockfilePathModel {
                base: None,
                below: seq!["Riot Games"@, "LeagueOfLegends"@, "lockfile"@],
            },
        ],
        forall|k: int|
            0 <= k < fixed_candidates().len() ==> (#[trigger] fixed_candidates()[k]).below
                == seq!["League of Legends"@, "lockfile"@] && fixed_candidates()[k].base is Some,
        fixed_candidates().len() == 3,
        fixed_candidates()[0].base == Some("C:\\Riot Games"@),
        fixed_candidates()[1].base == Some("C:\\Program Files\\Riot Games"@),
        fixed_candidates()[2].base == Some("C:\\Program Files (x86)\\Riot Games"@),
{
}

} // verus!
