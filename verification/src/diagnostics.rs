//! Self-check: `node` / `dsh`, who holds the port, the log directory and the
//! configuration file, as a list of results for the console.
use vstd::prelude::*;

use crate::config::{web_url_of, AppConfig};
use crate::service::{cfg_http_ready, first_pid, probe_hosts, probe_port, probe_result};
use crate::text::{chars_of, decimal, decimal_exec, push_all, push_str, slice, string_of};

verus! {

/// One line of the self-check.
pub struct DiagItem {
    pub check: String,
    pub ok: bool,
    pub detail: String,
}

/// JSON whitespace: space, line feed, tab and carriage return.
pub open spec fn is_json_ws(c: char) -> bool {
    c == ' ' || c == '\n' || c == '\t' || c == '\r'
}

/// The text without its leading JSON whitespace.
pub open spec fn json_trim_start(s: Seq<char>) -> Seq<char>
    decreases s.len(),
{
    if s.len() > 0 && is_json_ws(s[0]) {
        json_trim_start(s.drop_first())
    } else {
        s
    }
}

/// The text without its trailing JSON whitespace.
pub open spec fn json_trim_end(s: Seq<char>) -> Seq<char>
    decreases s.len(),
{
    if s.len() > 0 && is_json_ws(s.last()) {
        json_trim_end(s.drop_last())
    } else {
        s
    }
}

/// The text without the JSON whitespace around it.
pub open spec fn json_trim(s: Seq<char>) -> Seq<char> {
    json_trim_end(json_trim_start(s))
}

/// Whether `serde_json` reads a text that neither starts nor ends with JSON
/// whitespace as one JSON value (nested at most 128 levels deep).
pub uninterp spec fn json_value_text(text: Seq<char>) -> bool;

/// Whether `serde_json` reads the text as a JSON document: one value with
/// any JSON whitespace around it.
pub open spec fn json_valid(text: Seq<char>) -> bool {
    json_value_text(json_trim(text))
}

/// Calls `serde_json::from_str::<serde_json::Value>`. The contract claims
/// what its source shows of the text around the value (`parse_whitespace`
/// skips space, line feed, tab and carriage return before the value and
/// again before the end-of-input check); whether the rest is one JSON value
/// is the named result [`json_value_text`].
#[verifier::external_body]
fn json_parses(text: &str) -> (r: bool)
    ensures
        r == json_value_text(json_trim(text@)),
{
    serde_json::from_str::<serde_json::Value>(text).is_ok()
}

proof fn lemma_json_trim_start_ws(a: Seq<char>, t: Seq<char>)
    requires
        forall|k: int| 0 <= k < a.len() ==> is_json_ws(#[trigger] a[k]),
    ensures
        json_trim_start(a + t) == json_trim_start(t),
    decreases a.len(),
{
    if a.len() > 0 {
        assert((a + t)[0] == a[0]);
        assert((a + t).drop_first() == a.drop_first() + t);
        lemma_json_trim_start_ws(a.drop_first(), t);
    } else {
        assert(a + t == t);
    }
}

proof fn lemma_json_trim_end_ws(t: Seq<char>, b: Seq<char>)
    requires
        forall|k: int| 0 <= k < b.len() ==> is_json_ws(#[trigger] b[k]),
    ensures
        json_trim_end(t + b) == json_trim_end(t),
    decreases b.len(),
{
    if b.len() > 0 {
        assert((t + b).last() == b.last());
        assert((t + b).drop_last() == t + b.drop_last());
        lemma_json_trim_end_ws(t, b.drop_last());
    } else {
        assert(t + b == t);
    }
}

proof fn lemma_json_trim_start_keeps_end(t: Seq<char>, b: Seq<char>)
    requires
        b.len() > 0,
        forall|k: int| 0 <= k < b.len() ==> is_json_ws(#[trigger] b[k]),
    ensures
        json_trim_start(t + b) == json_trim_start(t) + b || (json_trim_start(t).len() == 0
            && json_trim_start(t + b).len() == 0),
    decreases t.len(),
{
    if t.len() > 0 {
        assert((t + b)[0] == t[0]);
        assert((t + b).drop_first() == t.drop_first() + b);
        if is_json_ws(t[0]) {
            lemma_json_trim_start_keeps_end(t.drop_first(), b);
        }
    } else {
        assert(t + b == b);
        lemma_json_trim_start_ws(b, Seq::<char>::empty());
        assert(b + Seq::<char>::empty() == b);
        assert(json_trim_start(Seq::<char>::empty()).len() == 0);
    }
}

/// A JSON document may be surrounded by any JSON whitespace (line feeds and
/// carriage returns included, as in a pretty-printed file with a final line
/// ending): adding whitespace before or after a text never changes whether
/// it is read as a document.
pub proof fn lemma_json_surrounding_whitespace(a: Seq<char>, t: Seq<char>, b: Seq<char>)
    requires
        forall|k: int| 0 <= k < a.len() ==> is_json_ws(#[trigger] a[k]),
        forall|k: int| 0 <= k < b.len() ==> is_json_ws(#[trigger] b[k]),
    ensures
        json_valid(a + t + b) == json_valid(t),
{
    assert(a + t + b == a + (t + b));
    lemma_json_trim_start_ws(a, t + b);
    if b.len() > 0 {
        lemma_json_trim_start_keeps_end(t, b);
        if json_trim_start(t + b) == json_trim_start(t) + b {
            lemma_json_trim_end_ws(json_trim_start(t), b);
        } else {
            assert(json_trim_end(json_trim_start(t + b)).len() == 0);
            assert(json_trim_end(json_trim_start(t)).len() == 0);
            assert(json_trim_end(json_trim_start(t + b)) =~= json_trim_end(json_trim_start(t)));
        }
    } else {
        assert(t + b == t);
    }
}

/// `it` reads `(check, ok, detail)`.
pub open spec fn item_is(it: DiagItem, check: Seq<char>, ok: bool, detail: Seq<char>) -> bool {
    it.check@ == check && it.ok == ok && it.detail@ == detail
}

fn item(check: &str, ok: bool, detail: Vec<char>) -> (r: DiagItem)
    ensures
        item_is(r, check@, ok, detail@),
{
    DiagItem { check: String::from_str(check), ok, detail: string_of(&detail) }
}

/// The view of an optional string.
pub open spec fn opt_view(o: Option<String>) -> Option<Seq<char>> {
    match o {
        Some(s) => Some(s@),
        None => None,
    }
}

/// Message when `node` is not on `PATH`.
pub const NODE_MISSING: &'static str = "PATH 中未找到 node，请先安装 Node.js";

/// Message when `dsh` is not on `PATH`.
pub const DSH_MISSING: &'static str = "PATH 中未找到 dsh，请执行 npm install -g @deepseek/dsh";

/// An executable's path with its version (`--version` output) in brackets,
/// or a note that the version is unknown.
pub open spec fn with_version(path: Seq<char>, version: Option<Seq<char>>) -> Seq<char> {
    match version {
        Some(v) => path + "（"@ + v + "）"@,
        None => path + "（版本未知）"@,
    }
}

/// The `node` line: its path and version.
pub open spec fn node_item(it: DiagItem, found: Option<Seq<char>>, version: Option<Seq<char>>) -> bool {
    match found {
        Some(p) => item_is(it, "Node.js"@, true, with_version(p, version)),
        None => item_is(it, "Node.js"@, false, NODE_MISSING@),
    }
}

/// The `dsh` line: the shim with its version and, when it could be read, its
/// entry.
pub open spec fn dsh_item(
    it: DiagItem,
    shim: Option<Seq<char>>,
    version: Option<Seq<char>>,
    entry: Option<Seq<char>>,
) -> bool {
    match shim {
        Some(s) => match entry {
            Some(e) => item_is(it, "dsh"@, true, with_version(s, version) + " → "@ + e),
            None => item_is(
                it,
                "dsh"@,
                true,
                with_version(s, version) + "（未解析出 JS 入口，将回退 cmd /C dsh）"@,
            ),
        },
        None => item_is(it, "dsh"@, false, DSH_MISSING@),
    }
}

/// The web connectivity line: whether the service address answers HTTP.
pub open spec fn web_item(it: DiagItem, port: u16, answers: bool) -> bool {
    if answers {
        item_is(it, "Web 连通性"@, true, web_url_of(port) + "（HTTP 响应正常）"@)
    } else {
        item_is(it, "Web 连通性"@, false, "无法访问: "@ + web_url_of(port))
    }
}

fn versioned(path: &String, version: &Option<String>) -> (r: Vec<char>)
    ensures
        r@ == with_version(path@, opt_view(*version)),
{
    let mut d = chars_of(path.as_str());
    match version {
        Some(v) => {
            push_str(&mut d, "（");
            push_str(&mut d, v.as_str());
            push_str(&mut d, "）");
        },
        None => {
            push_str(&mut d, "（版本未知）");
        },
    }
    d
}

/// At most the first `n` characters.
pub open spec fn first_chars(s: Seq<char>, n: nat) -> Seq<char> {
    if s.len() <= n {
        s
    } else {
        s.take(n as int)
    }
}

/// The port line: free, held by this application, or held by another
/// process (named by its process id and the start of its command line).
pub open spec fn port_item(
    it: DiagItem,
    port: u16,
    occupied: bool,
    owned: bool,
    pid: Option<u32>,
    cmdline: Option<Seq<char>>,
) -> bool {
    let check = "端口 "@ + decimal(port as nat);
    if !occupied {
        item_is(it, check, true, "空闲"@)
    } else if owned {
        item_is(it, check, true, "由本应用托管（正常运行）"@)
    } else {
        match pid {
            Some(p) => {
                let identity = match cmdline {
                    Some(c) => "；命令行："@ + first_chars(c, 90) + "…"@,
                    None => seq![],
                };
                item_is(
                    it,
                    check,
                    false,
                    "被外部进程占用（PID "@ + decimal(p as nat) + identity
                        + "）——若为 dsh 残留可清理，非 dsh 进程会拒绝终止"@,
                )
            },
            None => item_is(it, check, false, "被外部进程占用（未定位到监听 PID）"@),
        }
    }
}

/// The log directory line: the directory (shown as text) and whether the
/// log file could be opened for appending there, or why there is none.
pub open spec fn log_item(it: DiagItem, dir: Result<(Seq<char>, bool), Seq<char>>) -> bool {
    match dir {
        Ok((d, writable)) => if writable {
            item_is(it, "日志目录"@, true, d)
        } else {
            item_is(it, "日志目录"@, false, "不可写: "@ + d)
        },
        Err(e) => item_is(it, "日志目录"@, false, e),
    }
}

/// The configuration file line: readable and valid JSON, or not.
pub open spec fn config_item(it: DiagItem, path: Option<Seq<char>>, content: Option<Seq<char>>) -> bool {
    match path {
        Some(p) => {
            let ok = match content {
                Some(c) => json_valid(c),
                None => false,
            };
            if ok {
                item_is(it, "配置文件"@, true, p)
            } else {
                item_is(it, "配置文件"@, false, "缺失或解析失败: "@ + p)
            }
        },
        None => item_is(it, "配置文件"@, false, "无法确定路径（APPDATA 未设置）"@),
    }
}

/// The port line of the self-check; the listener and its command line are
/// looked up only when another process holds the port.
pub fn port_diag<P: Fn(&str, u16) -> bool, Q: Fn(u16) -> Vec<u32>, C: Fn(u32) -> Option<String>>(
    cfg: &AppConfig,
    owned: bool,
    probe: &P,
    pids: &Q,
    cmdline: &C,
) -> (r: DiagItem)
    requires
        forall|s: &str, p: u16| call_requires(*probe, (s, p)),
        forall|p: u16| call_requires(*pids, (p,)),
        forall|p: u32| call_requires(*cmdline, (p,)),
    ensures
        exists|occupied: bool|
            #[trigger] probe_result(*probe, probe_hosts(cfg.web.host@), cfg.web.port, occupied)
                && if occupied && !owned {
                exists|ps: Vec<u32>|
                    #[trigger] call_ensures(*pids, (cfg.web.port,), ps) && match first_pid(ps@) {
                        Some(p) => exists|c: Option<String>|
                            #[trigger] call_ensures(*cmdline, (p,), c) && port_item(
                                r,
                                cfg.web.port,
                                occupied,
                                owned,
                                Some(p),
                                opt_view(c),
                            ),
                        None => port_item(r, cfg.web.port, occupied, owned, None, None),
                    }
            } else {
                port_item(r, cfg.web.port, occupied, owned, None, None)
            },
{
    let mut check = chars_of("端口 ");
    let d = decimal_exec(cfg.web.port as u64);
    push_all(&mut check, &d);
    let check_s = string_of(&check);
    let occupied = probe_port(cfg, probe);
    if !occupied {
        return DiagItem { check: check_s, ok: true, detail: String::from_str("空闲") };
    }
    if owned {
        return DiagItem {
            check: check_s,
            ok: true,
            detail: String::from_str("由本应用托管（正常运行）"),
        };
    }
    let ps = pids(cfg.web.port);
    if ps.len() == 0 {
        return DiagItem {
            check: check_s,
            ok: false,
            detail: String::from_str("被外部进程占用（未定位到监听 PID）"),
        };
    }
    let p = ps[0];
    let c = cmdline(p);
    let mut ident: Vec<char> = Vec::new();
    match &c {
        Some(cl) => {
            let cv = chars_of(cl.as_str());
            let n: usize = if cv.len() <= 90 {
                cv.len()
            } else {
                90
            };
            let head = slice(&cv, 0, n);
            assert(head@ == first_chars(cv@, 90));
            push_str(&mut ident, "；命令行：");
            push_all(&mut ident, &head);
            push_str(&mut ident, "…");
        },
        None => {},
    }
    let mut detail = chars_of("被外部进程占用（PID ");
    let pd = decimal_exec(p as u64);
    push_all(&mut detail, &pd);
    push_all(&mut detail, &ident);
    push_str(&mut detail, "）——若为 dsh 残留可清理，非 dsh 进程会拒绝终止");
    let r = DiagItem { check: check_s, ok: false, detail: string_of(&detail) };
    proof {
        assert(first_pid(ps@) == Some(p));
        assert(call_ensures(*pids, (cfg.web.port,), ps));
        assert(call_ensures(*cmdline, (p,), c));
        assert(port_item(r, cfg.web.port, occupied, owned, Some(p), opt_view(c)));
    }
    r
}

/// The self-check, in order: `node` (with its version), `dsh` (with its
/// version and its shim's entry), the port, web connectivity, the log
/// directory and the configuration file. `version(path)` reads an
/// executable's `--version`.
pub fn run_diagnostics<
    F: Fn(&str) -> Option<String>,
    V: Fn(&String) -> Option<String>,
    G: Fn(&String) -> Option<String>,
    P: Fn(&str, u16) -> bool,
    Q: Fn(u16) -> Vec<u32>,
    C: Fn(u32) -> Option<String>,
    W: Fn(&str, u16) -> bool,
    D: Fn() -> Result<(String, bool), String>,
    H: Fn() -> Option<String>,
    R: Fn(&String) -> Option<String>,
>(
    cfg: &AppConfig,
    owned: bool,
    find_exe: &F,
    version: &V,
    resolve: &G,
    probe: &P,
    pids: &Q,
    cmdline: &C,
    http: &W,
    log_dir: &D,
    config_path: &H,
    read_file: &R,
) -> (r: Vec<DiagItem>)
    requires
        forall|s: &str| call_requires(*find_exe, (s,)),
        forall|s: &String| call_requires(*version, (s,)),
        forall|s: &String| call_requires(*resolve, (s,)),
        forall|s: &str, p: u16| call_requires(*probe, (s, p)),
        forall|p: u16| call_requires(*pids, (p,)),
        forall|p: u32| call_requires(*cmdline, (p,)),
        forall|s: &str, p: u16| call_requires(*http, (s, p)),
        call_requires(*log_dir, ()),
        call_requires(*config_path, ()),
        forall|s: &String| call_requires(*read_file, (s,)),
    ensures
        r@.len() == 6,
        exists|node: Option<String>|
            #[trigger] call_ensures(*find_exe, ("node",), node) && match node {
                Some(p) => exists|v: Option<String>|
                    #[trigger] call_ensures(*version, (&p,), v) && node_item(
                        r@[0],
                        Some(p@),
                        opt_view(v),
                    ),
                None => node_item(r@[0], None, None),
            },
        exists|shim: Option<String>|
            #[trigger] call_ensures(*find_exe, ("dsh",), shim) && match shim {
                Some(s) => exists|v: Option<String>, e: Option<String>|
                    #[trigger] call_ensures(*version, (&s,), v) && #[trigger] call_ensures(
                        *resolve,
                        (&s,),
                        e,
                    ) && dsh_item(r@[1], Some(s@), opt_view(v), opt_view(e)),
                None => dsh_item(r@[1], None, None, None),
            },
        exists|occupied: bool|
            #[trigger] probe_result(*probe, probe_hosts(cfg.web.host@), cfg.web.port, occupied)
                && if occupied && !owned {
                exists|ps: Vec<u32>|
                    #[trigger] call_ensures(*pids, (cfg.web.port,), ps) && match first_pid(ps@) {
                        Some(p) => exists|c: Option<String>|
                            #[trigger] call_ensures(*cmdline, (p,), c) && port_item(
                                r@[2],
                                cfg.web.port,
                                occupied,
                                owned,
                                Some(p),
                                opt_view(c),
                            ),
                        None => port_item(r@[2], cfg.web.port, occupied, owned, None, None),
                    }
            } else {
                port_item(r@[2], cfg.web.port, occupied, owned, None, None)
            },
        exists|answers: bool|
            #[trigger] probe_result(*http, probe_hosts(cfg.web.host@), cfg.web.port, answers)
                && web_item(r@[3], cfg.web.port, answers),
        exists|d: Result<(String, bool), String>|
            #[trigger] call_ensures(*log_dir, (), d) && log_item(
                r@[4],
                match d {
                    Ok((s, w)) => Ok((s@, w)),
                    Err(e) => Err(e@),
                },
            ),
        exists|path: Option<String>|
            #[trigger] call_ensures(*config_path, (), path) && match path {
                Some(p) => exists|c: Option<String>|
                    #[trigger] call_ensures(*read_file, (&p,), c) && config_item(
                        r@[5],
                        Some(p@),
                        opt_view(c),
                    ),
                None => config_item(r@[5], None, None),
            },
{
    let mut items: Vec<DiagItem> = Vec::new();
    // node
    let node = find_exe("node");
    let it0 = match &node {
        Some(p) => {
            let v = version(p);
            let it = item("Node.js", true, versioned(p, &v));
            assert(call_ensures(*version, (p,), v));
            it
        },
        None => item("Node.js", false, chars_of(NODE_MISSING)),
    };
    // dsh
    let shim = find_exe("dsh");
    let it1 = match &shim {
        Some(s) => {
            let v = version(s);
            let e = resolve(s);
            let mut d = versioned(s, &v);
            match &e {
                Some(entry) => {
                    push_str(&mut d, " → ");
                    push_str(&mut d, entry.as_str());
                },
                None => {
                    push_str(&mut d, "（未解析出 JS 入口，将回退 cmd /C dsh）");
                },
            }
            let it = item("dsh", true, d);
            assert(call_ensures(*version, (s,), v));
            assert(call_ensures(*resolve, (s,), e));
            it
        },
        None => item("dsh", false, chars_of(DSH_MISSING)),
    };
    // port
    let it2 = port_diag(cfg, owned, probe, pids, cmdline);
    // web connectivity
    let answers = cfg_http_ready(cfg, http);
    let url = cfg.web_url();
    let it3 = if answers {
        let mut d = chars_of(url.as_str());
        push_str(&mut d, "（HTTP 响应正常）");
        item("Web 连通性", true, d)
    } else {
        let mut d = chars_of("无法访问: ");
        push_str(&mut d, url.as_str());
        item("Web 连通性", false, d)
    };
    // log directory
    let dir = log_dir();
    let it4 = match &dir {
        Ok((d, writable)) => if *writable {
            item("日志目录", true, chars_of(d.as_str()))
        } else {
            let mut m = chars_of("不可写: ");
            push_str(&mut m, d.as_str());
            item("日志目录", false, m)
        },
        Err(e) => item("日志目录", false, chars_of(e.as_str())),
    };
    // configuration file
    let path = config_path();
    let it5 = match &path {
        Some(p) => {
            let content = read_file(p);
            let ok = match &content {
                Some(c) => json_parses(c.as_str()),
                None => false,
            };
            let it = if ok {
                item("配置文件", true, chars_of(p.as_str()))
            } else {
                let mut m = chars_of("缺失或解析失败: ");
                push_str(&mut m, p.as_str());
                item("配置文件", false, m)
            };
            assert(call_ensures(*read_file, (p,), content));
            it
        },
        None => item("配置文件", false, chars_of("无法确定路径（APPDATA 未设置）")),
    };
    items.push(it0);
    items.push(it1);
    items.push(it2);
    items.push(it3);
    items.push(it4);
    items.push(it5);
    items
}

} // verus!
