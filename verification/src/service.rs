//! Service supervision: port and process probes, the start flow of the
//! `dsh web` service, its status and details, and restart.
use vstd::prelude::*;

use crate::config::{web_url_of, AppConfig};
use crate::text::{
    ascii_lower, ascii_lower_char, chars_of, contains, contains_str, decimal, decimal_exec, ends_with, ends_with_str,
    find, find_str, is_ascii_text, lines, lines_exec, lowercase, parse_u32,
    parse_u32_exec, push_all, push_str, same_str, slice, starts_with, starts_with_str, string_of,
    to_lowercase, trim, trim_ws, words, words_exec,
};

verus! {

// ---------------------------------------------------------------- reports

/// Status shown by the console.
pub struct StatusInfo {
    pub port_in_use: bool,
    pub owned: bool,
    /// Base address of the service.
    pub url: String,
    /// Authenticated address printed by this application's service process,
    /// while that process runs.
    pub authenticated_url: Option<String>,
}

/// Successful outcome of a start request.
pub enum StartOutcome {
    Started { url: String },
    AlreadyRunning { url: String },
}

/// Why a start request failed.
pub enum StartError {
    NodeMissing,
    DshMissing,
    SpawnFailed(String),
    NotReady(String),
    /// A restart was asked while the port is held by a process that this
    /// application did not start.
    NotOwned,
}

/// Details of the running service.
pub struct ServiceInfo {
    pub pid: Option<u32>,
    pub started_at_ms: Option<u64>,
    pub log_path: String,
}

/// What polling the handle of the service process found.
#[derive(PartialEq, Eq, Structural, Clone, Copy, Debug)]
pub enum ChildState {
    /// No process was started by this application.
    Absent,
    /// The process is still running.
    Running,
    /// The process has exited.
    Exited,
    /// Polling failed; the process is taken to be running.
    Unknown,
}

/// The service counts as run by this application.
pub open spec fn owns(child: ChildState) -> bool {
    child == ChildState::Running || child == ChildState::Unknown
}

/// Whether the service process belongs to this application; an exited
/// process does not (its handle is then released).
pub fn owns_child(child: ChildState) -> (r: bool)
    ensures
        r == owns(child),
{
    match child {
        ChildState::Running => true,
        ChildState::Unknown => true,
        _ => false,
    }
}

// ---------------------------------------------------------------- port probes

/// Text of a socket address: IPv6 hosts (those holding `:`) in brackets.
pub open spec fn socket_addr_of(host: Seq<char>, port: u16) -> Seq<char> {
    if contains(host, ":"@) {
        "["@ + host + "]:"@ + decimal(port as nat)
    } else {
        host + ":"@ + decimal(port as nat)
    }
}

/// The socket address text for `host` and `port`.
pub fn socket_addr_text(host: &str, port: u16) -> (r: String)
    ensures
        r@ == socket_addr_of(host@, port),
{
    let h = chars_of(host);
    let p = decimal_exec(port as u64);
    let mut v: Vec<char> = Vec::new();
    if contains_str(&h, ":") {
        push_str(&mut v, "[");
        push_all(&mut v, &h);
        push_str(&mut v, "]:");
    } else {
        push_all(&mut v, &h);
        push_str(&mut v, ":");
    }
    push_all(&mut v, &p);
    string_of(&v)
}

/// A host that stands for every interface (or none given): probed through
/// the loopback addresses.
pub open spec fn is_wildcard(host: Seq<char>) -> bool {
    host == "0.0.0.0"@ || host == "::"@ || host.len() == 0
}

/// The hosts probed, in order, for a configured host.
pub open spec fn probe_hosts(host: Seq<char>) -> Seq<Seq<char>> {
    let h = trim(host);
    if is_wildcard(h) {
        seq!["127.0.0.1"@, "::1"@]
    } else {
        seq![h]
    }
}

/// `probe` may answer `b` for a host with these characters and `port`.
pub open spec fn probed<F: Fn(&str, u16) -> bool>(
    probe: F,
    host: Seq<char>,
    port: u16,
    b: bool,
) -> bool {
    exists|s: &str| s@ == host && #[trigger] call_ensures(probe, (s, port), b)
}

/// `r` is what probing `hosts` in order gives, stopping at the first host
/// that answers.
pub open spec fn probe_result<F: Fn(&str, u16) -> bool>(
    probe: F,
    hosts: Seq<Seq<char>>,
    port: u16,
    r: bool,
) -> bool
    decreases hosts.len(),
{
    if hosts.len() == 0 {
        !r
    } else {
        ||| probed(probe, hosts[0], port, true) && r
        ||| probed(probe, hosts[0], port, false) && probe_result(probe, hosts.drop_first(), port, r)
    }
}

fn probe_one<F: Fn(&str, u16) -> bool>(probe: &F, host: &str, port: u16) -> (r: bool)
    requires
        forall|s: &str, p: u16| call_requires(*probe, (s, p)),
    ensures
        probed(*probe, host@, port, r),
{
    let r = probe(host, port);
    assert(call_ensures(*probe, (host, port), r));
    r
}

/// The port is taken on a loopback address (`127.0.0.1`, then `::1`).
pub fn port_in_use<F: Fn(&str, u16) -> bool>(port: u16, probe: &F) -> (r: bool)
    requires
        forall|s: &str, p: u16| call_requires(*probe, (s, p)),
    ensures
        probe_result(*probe, seq!["127.0.0.1"@, "::1"@], port, r),
{
    let ghost hosts = seq!["127.0.0.1"@, "::1"@];
    assert(hosts.drop_first() == seq!["::1"@]);
    assert(hosts.drop_first().drop_first().len() == 0);
    reveal_with_fuel(probe_result, 3);
    if probe_one(probe, "127.0.0.1", port) {
        true
    } else {
        probe_one(probe, "::1", port)
    }
}

fn wildcard_host(h: &Vec<char>) -> (r: bool)
    ensures
        r == is_wildcard(h@),
{
    same_str(h, "0.0.0.0") || same_str(h, "::") || h.len() == 0
}

/// Whether the configured service port is taken: a wildcard host is probed
/// through the loopback addresses, any other host (trimmed) directly.
/// `probe(host, port)` makes one connection attempt.
pub fn probe_port<F: Fn(&str, u16) -> bool>(cfg: &AppConfig, probe: &F) -> (r: bool)
    requires
        forall|s: &str, p: u16| call_requires(*probe, (s, p)),
    ensures
        probe_result(*probe, probe_hosts(cfg.web.host@), cfg.web.port, r),
{
    let v = chars_of(cfg.web.host.as_str());
    let h = trim_ws(&v);
    if wildcard_host(&h) {
        port_in_use(cfg.web.port, probe)
    } else {
        let hs = string_of(&h);
        let r = probe_one(probe, hs.as_str(), cfg.web.port);
        let ghost hosts = probe_hosts(cfg.web.host@);
        assert(hosts == seq![h@]);
        assert(hosts.drop_first().len() == 0);
        reveal_with_fuel(probe_result, 2);
        r
    }
}

/// Whether the service answers HTTP on the configured host (wildcard hosts
/// through the loopback addresses); `ready(host, port)` makes one request.
pub fn cfg_http_ready<F: Fn(&str, u16) -> bool>(cfg: &AppConfig, ready: &F) -> (r: bool)
    requires
        forall|s: &str, p: u16| call_requires(*ready, (s, p)),
    ensures
        probe_result(*ready, probe_hosts(cfg.web.host@), cfg.web.port, r),
{
    probe_port(cfg, ready)
}

/// The request line and headers of the readiness request.
pub open spec fn http_request_of(host: Seq<char>, port: u16) -> Seq<char> {
    "GET / HTTP/1.1\r\nHost: "@ + host + ":"@ + decimal(port as nat) + "\r\nConnection: close\r\n\r\n"@
}

/// The readiness request sent to `host:port`.
pub fn http_request(host: &str, port: u16) -> (r: String)
    ensures
        r@ == http_request_of(host@, port),
{
    let mut v = chars_of("GET / HTTP/1.1\r\nHost: ");
    push_str(&mut v, host);
    push_str(&mut v, ":");
    let p = decimal_exec(port as u64);
    push_all(&mut v, &p);
    push_str(&mut v, "\r\nConnection: close\r\n\r\n");
    string_of(&v)
}

/// The bytes of `HTTP/`.
pub open spec fn http_prefix() -> Seq<u8> {
    seq![72u8, 84u8, 84u8, 80u8, 47u8]
}

/// A reply counts as HTTP when it starts with `HTTP/`.
pub fn is_http_response(reply: &[u8]) -> (r: bool)
    ensures
        r == (reply@.len() >= 5 && reply@.take(5) == http_prefix()),
{
    if reply.len() < 5 {
        return false;
    }
    let r = reply[0] == 72 && reply[1] == 84 && reply[2] == 84 && reply[3] == 80 && reply[4] == 47;
    assert(r ==> reply@.take(5) == http_prefix());
    assert(reply@.take(5) == http_prefix() ==> reply@.take(5)[0] == 72u8 && reply@.take(5)[4]
        == 47u8);
    r
}

// ---------------------------------------------------------------- processes

/// Arguments of `netstat` that list TCP sockets with their owning processes.
pub fn netstat_args() -> (r: Vec<String>)
    ensures
        r@.len() == 3,
        r@[0]@ == "-ano"@,
        r@[1]@ == "-p"@,
        r@[2]@ == "TCP"@,
{
    let mut r: Vec<String> = Vec::new();
    r.push(String::from_str("-ano"));
    r.push(String::from_str("-p"));
    r.push(String::from_str("TCP"));
    r
}

/// The process listening on `port` that a `netstat` line names: the line
/// has at least five columns, its local address ends in `:port`, its state
/// is `LISTENING` and its last column reads as a process id.
pub open spec fn listening_pid(line: Seq<char>, port: u16) -> Option<u32> {
    let parts = words(line);
    if parts.len() >= 5 && ends_with(parts[1], ":"@ + decimal(port as nat)) && parts[3]
        == "LISTENING"@ {
        parse_u32(parts[4])
    } else {
        None
    }
}

/// The listening process ids of the lines, in order.
pub open spec fn pids_in(ls: Seq<Seq<char>>, port: u16) -> Seq<u32>
    decreases ls.len(),
{
    if ls.len() == 0 {
        seq![]
    } else {
        match listening_pid(ls[0], port) {
            Some(p) => seq![p] + pids_in(ls.drop_first(), port),
            None => pids_in(ls.drop_first(), port),
        }
    }
}

fn listening_pid_exec(line: &Vec<char>, suffix: &str, port: u16) -> (r: Option<u32>)
    requires
        suffix@ == ":"@ + decimal(port as nat),
    ensures
        r == listening_pid(line@, port),
{
    let parts = words_exec(line);
    if parts.len() >= 5 && ends_with_str(&parts[1], suffix) && same_str(&parts[3], "LISTENING") {
        parse_u32_exec(&parts[4])
    } else {
        None
    }
}

/// Processes listening on `port`, read from `netstat -ano -p TCP` output.
pub fn listening_pids(output: &str, port: u16) -> (r: Vec<u32>)
    ensures
        r@ == pids_in(lines(output@), port),
{
    let v = chars_of(output);
    let ls = lines_exec(&v);
    let ghost lv = lines(v@);
    let mut sv = chars_of(":");
    let d = decimal_exec(port as u64);
    push_all(&mut sv, &d);
    let suffix = string_of(&sv);
    let mut pids: Vec<u32> = Vec::new();
    let mut i: usize = 0;
    assert(lv.skip(0) == lv);
    while i < ls.len()
        invariant
            i <= ls@.len(),
            ls@.len() == lv.len(),
            forall|k: int| 0 <= k < ls@.len() ==> #[trigger] ls@[k]@ == lv[k],
            suffix@ == ":"@ + decimal(port as nat),
            pids@ + pids_in(lv.skip(i as int), port) == pids_in(lv, port),
        decreases ls.len() - i,
    {
        let ghost rest = lv.skip(i as int);
        assert(rest[0] == lv[i as int]);
        assert(rest.drop_first() == lv.skip(i + 1));
        match listening_pid_exec(&ls[i], suffix.as_str(), port) {
            Some(p) => {
                pids.push(p);
                assert(pids@ + pids_in(lv.skip(i + 1), port) == pids_in(lv, port));
            },
            None => {},
        }
        i = i + 1;
    }
    assert(lv.skip(i as int).len() == 0);
    assert(pids@ + Seq::<u32>::empty() == pids@);
    pids
}

/// The PowerShell command that prints a process's command line.
pub open spec fn command_line_query_of(pid: u32) -> Seq<char> {
    "(Get-CimInstance Win32_Process -Filter \"ProcessId="@ + decimal(pid as nat)
        + "\").CommandLine"@
}

/// Arguments of `powershell` that print the command line of process `pid`.
pub fn command_line_args(pid: u32) -> (r: Vec<String>)
    ensures
        r@.len() == 4,
        r@[0]@ == "-NoProfile"@,
        r@[1]@ == "-NonInteractive"@,
        r@[2]@ == "-Command"@,
        r@[3]@ == command_line_query_of(pid),
{
    let mut q = chars_of("(Get-CimInstance Win32_Process -Filter \"ProcessId=");
    let d = decimal_exec(pid as u64);
    push_all(&mut q, &d);
    push_str(&mut q, "\").CommandLine");
    let mut r: Vec<String> = Vec::new();
    r.push(String::from_str("-NoProfile"));
    r.push(String::from_str("-NonInteractive"));
    r.push(String::from_str("-Command"));
    r.push(string_of(&q));
    r
}

/// The command line that the query printed: its trimmed output, if any.
pub fn command_line_from(output: &str) -> (r: Option<String>)
    ensures
        trim(output@).len() == 0 ==> r is None,
        trim(output@).len() > 0 ==> (r matches Some(c) && c@ == trim(output@)),
{
    let v = chars_of(output);
    let t = trim_ws(&v);
    if t.len() == 0 {
        None
    } else {
        Some(string_of(&t))
    }
}

/// A lowercased command line of the `dsh web` service: it names dsh
/// (`dsh`, `@deepseek` or `bin.js`) and has the `web` subcommand as one of
/// its whitespace-separated words.
pub open spec fn is_dsh_command(lower: Seq<char>) -> bool {
    (contains(lower, "dsh"@) || contains(lower, "@deepseek"@) || contains(lower, "bin.js"@))
        && words(lower).contains("web"@)
}

/// [`is_dsh_command`] on an already lowercased command line.
pub fn is_dsh_lowercase(lower: &str) -> (r: bool)
    ensures
        r == is_dsh_command(lower@),
        r == ((contains(lower@, "dsh"@) || contains(lower@, "@deepseek"@) || contains(
            lower@,
            "bin.js"@,
        )) && exists|j: int| 0 <= j < words(lower@).len() && #[trigger] words(lower@)[j] == "web"@),
{
    let v = chars_of(lower);
    let marked = contains_str(&v, "dsh") || contains_str(&v, "@deepseek") || contains_str(&v, "bin.js");
    if !marked {
        return false;
    }
    let ws = words_exec(&v);
    let ghost wv = words(v@);
    let mut i: usize = 0;
    while i < ws.len()
        invariant
            i <= ws@.len(),
            ws@.len() == wv.len(),
            wv == words(lower@),
            contains(lower@, "dsh"@) || contains(lower@, "@deepseek"@) || contains(lower@, "bin.js"@),
            forall|k: int| 0 <= k < ws@.len() ==> #[trigger] ws@[k]@ == wv[k],
            forall|k: int| 0 <= k < i ==> wv[k] != "web"@,
        decreases ws.len() - i,
    {
        if same_str(&ws[i], "web") {
            assert(wv[i as int] == "web"@);
            assert(wv.contains("web"@));
            return true;
        }
        i = i + 1;
    }
    assert(!wv.contains("web"@));
    false
}

/// The identity check is exactly "names dsh and has the `web` word": any
/// lowercased command line that names dsh (`dsh`, `@deepseek` or `bin.js`)
/// and has `web` as one of its whitespace-separated words is the service,
/// wherever `web` stands (as in `dsh --profile web --no-open --port 3081`),
/// and no other command line is.
pub proof fn lemma_identity_is_marker_and_web_word(lower: Seq<char>, k: int)
    ensures
        (contains(lower, "dsh"@) || contains(lower, "@deepseek"@) || contains(lower, "bin.js"@))
            && 0 <= k < words(lower).len() && words(lower)[k] == "web"@ ==> is_dsh_command(lower),
        is_dsh_command(lower) ==> (contains(lower, "dsh"@) || contains(lower, "@deepseek"@)
            || contains(lower, "bin.js"@)),
        is_dsh_command(lower) ==> exists|j: int|
            0 <= j < words(lower).len() && #[trigger] words(lower)[j] == "web"@,
        !contains(lower, "dsh"@) && !contains(lower, "@deepseek"@) && !contains(lower, "bin.js"@)
            ==> !is_dsh_command(lower),
{
    if 0 <= k < words(lower).len() && words(lower)[k] == "web"@ {
        assert(words(lower).contains("web"@));
    }
}

/// Command lines that differ only in ASCII letter case get the same answer:
/// for ASCII command lines the identity check reads the ASCII lowercase
/// (see [`is_dsh_process`]), so it does not depend on how `dsh` or `web` is
/// capitalised.
pub proof fn lemma_identity_ignores_ascii_case(a: Seq<char>, b: Seq<char>)
    requires
        a.len() == b.len(),
        forall|k: int| 0 <= k < a.len() ==> ascii_lower_char(#[trigger] a[k]) == ascii_lower_char(b[k]),
    ensures
        is_dsh_command(ascii_lower(a)) == is_dsh_command(ascii_lower(b)),
{
    assert(ascii_lower(a) =~= ascii_lower(b));
}

/// Whether a process command line belongs to the `dsh web` service; when in
/// doubt the answer is no, so that no unrelated process is ever killed.
pub fn is_dsh_process(cmdline: &str) -> (r: bool)
    ensures
        r == is_dsh_command(lowercase(cmdline@)),
        is_ascii_text(cmdline@) ==> r == is_dsh_command(ascii_lower(cmdline@)),
{
    let lower = to_lowercase(cmdline);
    is_dsh_lowercase(lower.as_str())
}

/// Arguments of `taskkill` that force-kill the process tree of `pid`.
pub fn kill_tree_args(pid: u32) -> (r: Vec<String>)
    ensures
        r@.len() == 4,
        r@[0]@ == "/PID"@,
        r@[1]@ == decimal(pid as nat),
        r@[2]@ == "/T"@,
        r@[3]@ == "/F"@,
{
    let d = decimal_exec(pid as u64);
    let mut r: Vec<String> = Vec::new();
    r.push(String::from_str("/PID"));
    r.push(string_of(&d));
    r.push(String::from_str("/T"));
    r.push(String::from_str("/F"));
    r
}

// ---------------------------------------------------------------- status and details

/// The first process id of a list.
pub open spec fn first_pid(v: Seq<u32>) -> Option<u32> {
    if v.len() > 0 {
        Some(v[0])
    } else {
        None
    }
}

/// Console status: whether the port is taken, whether this application runs
/// the service, the service address and, while this application's process
/// runs, the authenticated address it printed (`authenticated_url`, the one
/// captured so far).
pub fn get_status<F: Fn(&str, u16) -> bool>(
    cfg: &AppConfig,
    child: ChildState,
    authenticated_url: Option<String>,
    probe: &F,
) -> (r: StatusInfo)
    requires
        forall|s: &str, p: u16| call_requires(*probe, (s, p)),
    ensures
        probe_result(*probe, probe_hosts(cfg.web.host@), cfg.web.port, r.port_in_use),
        r.owned == owns(child),
        r.url@ == web_url_of(cfg.web.port),
        r.authenticated_url == if owns(child) {
            authenticated_url
        } else {
            None
        },
{
    let owned = owns_child(child);
    StatusInfo {
        port_in_use: probe_port(cfg, probe),
        owned,
        url: cfg.web_url(),
        authenticated_url: if owned {
            authenticated_url
        } else {
            None
        },
    }
}

// ---------------------------------------------------------------- authenticated address

/// What precedes the authenticated address in the service's output.
pub const AUTH_LINE_MARKER: &'static str = "dsh web:";

/// The authenticated address that an output line of the service announces:
/// the first word after `dsh web:`, when it is an `http://` or `https://`
/// address carrying a `token=` parameter.
pub open spec fn auth_url_of(line: Seq<char>) -> Option<Seq<char>> {
    match find(line, AUTH_LINE_MARKER@) {
        None => None,
        Some(i) => {
            let ws = words(line.skip(i + AUTH_LINE_MARKER@.len()));
            if ws.len() > 0 && (starts_with(ws[0], "http://"@) || starts_with(ws[0], "https://"@))
                && contains(ws[0], "token="@) {
                Some(ws[0])
            } else {
                None
            }
        },
    }
}

/// An address taken from the service's output is always a web address that
/// carries a token.
pub proof fn lemma_auth_url_has_token(line: Seq<char>)
    ensures
        auth_url_of(line) matches Some(u) ==> (starts_with(u, "http://"@) || starts_with(
            u,
            "https://"@,
        )) && contains(u, "token="@),
{
}

/// The authenticated address announced by one line of the service's output.
pub fn authenticated_url(line: &str) -> (r: Option<String>)
    ensures
        r matches Some(u) ==> auth_url_of(line@) == Some(u@),
        r is None ==> auth_url_of(line@) is None,
{
    let v = chars_of(line);
    let i = match find_str(&v, AUTH_LINE_MARKER) {
        Some(i) => i,
        None => return None,
    };
    proof {
        crate::text::lemma_find(v@, AUTH_LINE_MARKER@);
        reveal_strlit("dsh web:");
    }
    let m = chars_of(AUTH_LINE_MARKER);
    let k: usize = m.len();
    assert(find(v@, AUTH_LINE_MARKER@) == Some(i as int));
    assert(i + k <= v.len());
    let rest = slice(&v, i + k, v.len());
    assert(rest@ == v@.skip(i + AUTH_LINE_MARKER@.len()));
    let ws = words_exec(&rest);
    if ws.len() == 0 {
        return None;
    }
    let w = slice(&ws[0], 0, ws[0].len());
    assert(w@ == ws@[0]@);
    if (starts_with_str(&w, "http://") || starts_with_str(&w, "https://")) && contains_str(&w, "token=") {
        Some(string_of(&w))
    } else {
        None
    }
}

/// The address to open: the authenticated one when known, else the base.
pub open spec fn effective_url_of(base: Seq<char>, auth: Option<String>) -> Seq<char> {
    match auth {
        Some(a) => a@,
        None => base,
    }
}

fn effective_url(base: &String, auth: Option<String>) -> (r: String)
    ensures
        r@ == effective_url_of(base@, auth),
{
    match auth {
        Some(a) => a,
        None => base.clone(),
    }
}

/// Opening the Harness page: first the base page of the service; then, when
/// this application's own process (`child`) announced an authenticated
/// address (`auth`), that address once the base page has loaded (so that its
/// cookie is set from the service's own origin).
pub fn harness_navigation(cfg: &AppConfig, child: ChildState, auth: Option<String>) -> (r: (
    String,
    Option<String>,
))
    ensures
        r.0@ == web_url_of(cfg.web.port),
        r.1 == if owns(child) {
            auth
        } else {
            None
        },
{
    let then = if owns_child(child) {
        auth
    } else {
        None
    };
    (cfg.web_url(), then)
}

/// Service details: the process id (this application's process, else the
/// listener of an occupied port, found by `pids`), the start time (only for
/// this application's process) and the log path.
pub fn get_service_info<F: Fn(&str, u16) -> bool, G: Fn(u16) -> Vec<u32>>(
    cfg: &AppConfig,
    child: ChildState,
    child_pid: Option<u32>,
    started_at_ms: Option<u64>,
    log_path: String,
    probe: &F,
    pids: &G,
) -> (r: ServiceInfo)
    requires
        forall|s: &str, p: u16| call_requires(*probe, (s, p)),
        forall|p: u16| call_requires(*pids, (p,)),
    ensures
        owns(child) ==> r.pid == child_pid && r.started_at_ms == started_at_ms,
        !owns(child) ==> r.started_at_ms is None && exists|b: bool|
            #[trigger] probe_result(*probe, probe_hosts(cfg.web.host@), cfg.web.port, b) && if b {
                exists|v: Vec<u32>|
                    #[trigger] call_ensures(*pids, (cfg.web.port,), v) && r.pid == first_pid(v@)
            } else {
                r.pid is None
            },
        r.log_path == log_path,
{
    let owned = owns_child(child);
    let pid = if owned {
        child_pid
    } else if probe_port(cfg, probe) {
        let v = pids(cfg.web.port);
        if v.len() > 0 {
            Some(v[0])
        } else {
            None
        }
    } else {
        None
    };
    let started = if owned {
        started_at_ms
    } else {
        None
    };
    ServiceInfo { pid, started_at_ms: started, log_path }
}

// ---------------------------------------------------------------- start flow

/// Program and arguments of the service process.
pub struct ServiceCommand {
    pub program: String,
    pub args: Vec<String>,
}

/// The characters of each string.
pub open spec fn views(v: Seq<String>) -> Seq<Seq<char>> {
    v.map_values(|s: String| s@)
}

/// Arguments that start the web service on `port`:
/// `--profile web --no-open --port <port>` (`--no-open` keeps dsh from
/// opening a browser, which would use up the one-time token).
pub open spec fn web_args(port: u16) -> Seq<Seq<char>> {
    seq!["--profile"@, "web"@, "--no-open"@, "--port"@, decimal(port as nat)]
}

fn push_arg(args: &mut Vec<String>, a: String)
    ensures
        views(final(args)@) == views(old(args)@).push(a@),
{
    args.push(a);
    assert(views(args@) == views(old(args)@).push(a@));
}

/// The service command: `node <entry>` when the shim's entry is known,
/// otherwise `cmd /C dsh`, followed by the web arguments.
pub fn service_command(node: &String, entry: Option<String>, port: u16) -> (r: ServiceCommand)
    ensures
        match entry {
            Some(e) => r.program@ == node@ && views(r.args@) == seq![e@] + web_args(port),
            None => r.program@ == "cmd"@ && views(r.args@) == seq!["/C"@, "dsh"@] + web_args(port),
        },
{
    let mut args: Vec<String> = Vec::new();
    let program = match entry {
        Some(e) => {
            push_arg(&mut args, e);
            node.clone()
        },
        None => {
            push_arg(&mut args, String::from_str("/C"));
            push_arg(&mut args, String::from_str("dsh"));
            String::from_str("cmd")
        },
    };
    let ghost before = views(args@);
    push_arg(&mut args, String::from_str("--profile"));
    push_arg(&mut args, String::from_str("web"));
    push_arg(&mut args, String::from_str("--no-open"));
    push_arg(&mut args, String::from_str("--port"));
    let d = decimal_exec(port as u64);
    push_arg(&mut args, string_of(&d));
    assert(views(args@) == before + web_args(port));
    ServiceCommand { program, args }
}

/// Seconds to wait for the service: the configured limit, at least five.
pub open spec fn start_timeout_of(configured: u64) -> u64 {
    if configured < 5 {
        5
    } else {
        configured
    }
}

/// The start wait is the configured limit raised to five seconds: never
/// shorter than either, and equal to one of them.
pub proof fn lemma_start_timeout_is_max(configured: u64)
    ensures
        start_timeout_of(configured) >= configured,
        start_timeout_of(configured) >= 5,
        start_timeout_of(configured) == configured || start_timeout_of(configured) == 5,
{
}

/// One step of the start flow: go on in the next state, or finish.
pub enum StartStep<T> {
    Next(T),
    Finish(Result<StartOutcome, StartError>),
}

/// A start request, before anything is checked.
pub struct StartPlan {
    /// Address reported on success.
    pub url: String,
    pub port: u16,
    /// Seconds to wait for readiness once the process runs.
    pub timeout_secs: u64,
}

/// `node` was found on `PATH`.
pub struct NodeFound {
    pub plan: StartPlan,
    pub node: String,
}

/// `node` and the `dsh` shim were found.
pub struct EnvReady {
    pub plan: StartPlan,
    pub node: String,
    pub shim: String,
}

/// The port is free: a leftover process of this application is killed and
/// the shim's entry is read next.
pub struct PortFree {
    pub plan: StartPlan,
    pub node: String,
    pub shim: String,
}

/// The service command has been issued; the log is opened and the process
/// spawned next.
pub struct Launching {
    pub plan: StartPlan,
}

/// The process runs; readiness is polled until the deadline.
pub struct Waiting {
    pub plan: StartPlan,
    /// Path of the log file, quoted in error messages.
    pub log_file: String,
}

/// What went wrong while launching the service process.
pub enum LaunchFailure {
    LogDir(String),
    LogFile(String),
    LogClone(String),
    Spawn(String),
}

/// The message of a launch failure.
pub open spec fn launch_failure_message(f: LaunchFailure) -> Seq<char> {
    match f {
        LaunchFailure::LogDir(e) => "无法获取日志目录: "@ + e@,
        LaunchFailure::LogFile(e) => "无法打开日志文件: "@ + e@,
        LaunchFailure::LogClone(e) => "无法克隆日志句柄: "@ + e@,
        LaunchFailure::Spawn(e) => "启动 dsh 失败: "@ + e@,
    }
}

/// Result of one readiness poll.
pub enum Poll {
    /// Not ready yet: sleep and poll again.
    Wait,
    /// The service answers: note the start time, wait briefly for the
    /// authenticated address and report with [`Waiting::started`].
    Ready,
    /// The start failed: kill the process tree, release its handle and clear
    /// the authenticated address, then report this error.
    Failed(StartError),
}

/// Message of a start that did not become ready in time.
pub open spec fn timeout_message(secs: u64, log_file: Seq<char>) -> Seq<char> {
    "启动超时（"@ + decimal(secs as nat) + "s），请查看日志: "@ + log_file
}

/// Message of a service process that exited while starting.
pub open spec fn exited_message(log_file: Seq<char>) -> Seq<char> {
    "dsh 进程提前退出，请查看日志: "@ + log_file
}

fn cat_str(a: &str, b: &str) -> (r: String)
    ensures
        r@ == a@ + b@,
{
    let mut v = chars_of(a);
    push_str(&mut v, b);
    string_of(&v)
}

impl StartPlan {
    /// The plan for the configured service.
    pub fn new(cfg: &AppConfig) -> (r: StartPlan)
        ensures
            r.url@ == web_url_of(cfg.web.port),
            r.port == cfg.web.port,
            r.timeout_secs == start_timeout_of(cfg.service.start_timeout_secs),
            cfg.service.start_timeout_secs >= 5 ==> r.timeout_secs == cfg.service.start_timeout_secs,
            cfg.service.start_timeout_secs < 5 ==> r.timeout_secs == 5,
    {
        let t = cfg.service.start_timeout_secs;
        StartPlan {
            url: cfg.web_url(),
            port: cfg.web.port,
            timeout_secs: if t < 5 {
                5
            } else {
                t
            },
        }
    }

    /// After looking `node` up: a missing `node` ends the request.
    pub fn node_found(self, node: Option<String>) -> (r: StartStep<NodeFound>)
        ensures
            node is None ==> r matches StartStep::Finish(Err(StartError::NodeMissing)),
            node matches Some(n) ==> (r matches StartStep::Next(s) && s.node == n && s.plan == self),
    {
        match node {
            None => StartStep::Finish(Err(StartError::NodeMissing)),
            Some(n) => StartStep::Next(NodeFound { plan: self, node: n }),
        }
    }
}

impl NodeFound {
    /// After looking the `dsh` shim up: a missing `dsh` ends the request.
    pub fn dsh_found(self, dsh: Option<String>) -> (r: StartStep<EnvReady>)
        ensures
            dsh is None ==> r matches StartStep::Finish(Err(StartError::DshMissing)),
            dsh matches Some(d) ==> (r matches StartStep::Next(s) && s.shim == d && s.node
                == self.node && s.plan == self.plan),
    {
        match dsh {
            None => StartStep::Finish(Err(StartError::DshMissing)),
            Some(d) => StartStep::Next(EnvReady { plan: self.plan, node: self.node, shim: d }),
        }
    }
}

impl EnvReady {
    /// After probing the port: a port already in use means an instance is
    /// running, which is reported and not started a second time. Its address
    /// is the authenticated one this application captured (`auth`) when the
    /// instance is this application's own process (`child`), else the base
    /// address: an outside instance's token is never known here.
    pub fn port_probed(self, in_use: bool, child: ChildState, auth: Option<String>) -> (r: StartStep<
        PortFree,
    >)
        ensures
            in_use ==> (r matches StartStep::Finish(Ok(StartOutcome::AlreadyRunning { url })) && url@
                == (if owns(child) {
                effective_url_of(self.plan.url@, auth)
            } else {
                self.plan.url@
            })),
            !in_use ==> (r matches StartStep::Next(s) && s.plan == self.plan && s.node == self.node
                && s.shim == self.shim),
    {
        if in_use {
            let url = if owns_child(child) {
                effective_url(&self.plan.url, auth)
            } else {
                self.plan.url.clone()
            };
            StartStep::Finish(Ok(StartOutcome::AlreadyRunning { url }))
        } else {
            StartStep::Next(PortFree { plan: self.plan, node: self.node, shim: self.shim })
        }
    }
}

impl PortFree {
    /// After reading the shim's entry: the command to launch.
    pub fn entry_resolved(self, entry: Option<String>) -> (r: (Launching, ServiceCommand))
        ensures
            r.0.plan == self.plan,
            match entry {
                Some(e) => r.1.program@ == self.node@ && views(r.1.args@) == seq![e@] + web_args(
                    self.plan.port,
                ),
                None => r.1.program@ == "cmd"@ && views(r.1.args@) == seq!["/C"@, "dsh"@]
                    + web_args(self.plan.port),
            },
    {
        let cmd = service_command(&self.node, entry, self.plan.port);
        (Launching { plan: self.plan }, cmd)
    }
}

impl Launching {
    /// After opening the log and spawning: `Ok` carries the log file path.
    pub fn launched(self, outcome: Result<String, LaunchFailure>) -> (r: StartStep<Waiting>)
        ensures
            outcome matches Err(f) ==> (r matches StartStep::Finish(
                Err(StartError::SpawnFailed(m)),
            ) && m@ == launch_failure_message(f)),
            outcome matches Ok(log) ==> (r matches StartStep::Next(w) && w.plan == self.plan
                && w.log_file == log),
    {
        match outcome {
            Ok(log) => StartStep::Next(Waiting { plan: self.plan, log_file: log }),
            Err(f) => {
                let m = match f {
                    LaunchFailure::LogDir(e) => cat_str("无法获取日志目录: ", e.as_str()),
                    LaunchFailure::LogFile(e) => cat_str("无法打开日志文件: ", e.as_str()),
                    LaunchFailure::LogClone(e) => cat_str("无法克隆日志句柄: ", e.as_str()),
                    LaunchFailure::Spawn(e) => cat_str("启动 dsh 失败: ", e.as_str()),
                };
                StartStep::Finish(Err(StartError::SpawnFailed(m)))
            },
        }
    }
}

impl Waiting {
    /// One readiness poll: past the deadline the start has timed out;
    /// otherwise it is ready when the port is taken (`port_open`) and the
    /// service answers HTTP (`answers_http`, asked only when the port is
    /// taken), failed when the process has `exited` (asked only when not
    /// ready), and waits again otherwise. A timeout and an early exit both
    /// end the process.
    pub fn poll<O: Fn() -> bool, H: Fn() -> bool, X: Fn() -> bool>(
        &self,
        expired: bool,
        port_open: O,
        answers_http: H,
        exited: X,
    ) -> (r: Poll)
        requires
            call_requires(port_open, ()),
            call_requires(answers_http, ()),
            call_requires(exited, ()),
        ensures
            expired ==> (r matches Poll::Failed(StartError::NotReady(m)) && m@ == timeout_message(
                self.plan.timeout_secs,
                self.log_file@,
            )),
            !expired ==> exists|ready: bool|
                #[trigger] ready_result(port_open, answers_http, ready) && {
                    ||| ready && r is Ready
                    ||| !ready && call_ensures(exited, (), true) && (r matches Poll::Failed(
                        StartError::NotReady(m),
                    ) && m@ == exited_message(self.log_file@))
                    ||| !ready && call_ensures(exited, (), false) && r is Wait
                },
    {
        if expired {
            let mut v = chars_of("启动超时（");
            let d = decimal_exec(self.plan.timeout_secs);
            push_all(&mut v, &d);
            push_str(&mut v, "s），请查看日志: ");
            push_str(&mut v, self.log_file.as_str());
            return Poll::Failed(StartError::NotReady(string_of(&v)));
        }
        let ready = port_open() && answers_http();
        assert(ready_result(port_open, answers_http, ready));
        if ready {
            return Poll::Ready;
        }
        if exited() {
            return Poll::Failed(
                StartError::NotReady(cat_str("dsh 进程提前退出，请查看日志: ", self.log_file.as_str())),
            );
        }
        Poll::Wait
    }

    /// The outcome of a start that became ready: the authenticated address
    /// the process printed (`auth`), else the base address.
    pub fn started(self, auth: Option<String>) -> (r: StartOutcome)
        ensures
            r matches StartOutcome::Started { url } && url@ == effective_url_of(self.plan.url@, auth),
    {
        StartOutcome::Started { url: effective_url(&self.plan.url, auth) }
    }
}

/// `ready` is the readiness found: the port is taken and then the service
/// answers HTTP (the HTTP request is made only when the port is taken).
pub open spec fn ready_result<O: Fn() -> bool, H: Fn() -> bool>(
    port_open: O,
    answers_http: H,
    ready: bool,
) -> bool {
    ||| call_ensures(port_open, (), false) && !ready
    ||| call_ensures(port_open, (), true) && call_ensures(answers_http, (), ready)
}

// ---------------------------------------------------------------- restart

/// Restart: allowed only while this application runs the service; a port
/// held by another process is refused with `NotOwned`. `restart` stops this
/// application's process and starts the service again; its outcome is the
/// answer.
pub fn restart_service<F: FnOnce() -> Result<StartOutcome, StartError>>(
    child: ChildState,
    restart: F,
) -> (r: Result<StartOutcome, StartError>)
    requires
        call_requires(restart, ()),
    ensures
        !owns(child) ==> r matches Err(StartError::NotOwned),
        owns(child) ==> call_ensures(restart, (), r),
{
    if !owns_child(child) {
        return Err(StartError::NotOwned);
    }
    restart()
}

} // verus!
