use dsh_desktop::config::AppConfig;
use dsh_desktop::service::{
    cfg_http_ready, command_line_args, command_line_from, get_service_info, get_status,
    http_request, is_dsh_lowercase, is_dsh_process, is_http_response, kill_tree_args,
    listening_pids, netstat_args, owns_child, port_in_use, probe_port, restart_service,
    service_command, socket_addr_text, authenticated_url, harness_navigation, ChildState,
    LaunchFailure, Poll, StartError, StartOutcome, StartPlan, StartStep,
};
use std::cell::RefCell;

fn cfg_with_host(h: &str) -> AppConfig {
    let mut c = AppConfig::default();
    c.web.host = h.to_string();
    c
}

#[test]
fn socket_addresses() {
    assert_eq!(socket_addr_text("127.0.0.1", 3081), "127.0.0.1:3081");
    assert_eq!(socket_addr_text("::1", 3081), "[::1]:3081");
}

#[test]
fn loopback_probe_order_and_short_circuit() {
    let seen = RefCell::new(Vec::new());
    let probe = |h: &str, p: u16| {
        seen.borrow_mut().push(format!("{h}:{p}"));
        h == "127.0.0.1"
    };
    assert!(port_in_use(3081, &probe));
    assert_eq!(*seen.borrow(), vec!["127.0.0.1:3081"]);
    seen.borrow_mut().clear();
    let probe6 = |h: &str, p: u16| {
        seen.borrow_mut().push(format!("{h}:{p}"));
        h == "::1"
    };
    assert!(port_in_use(9, &probe6));
    assert_eq!(*seen.borrow(), vec!["127.0.0.1:9", "::1:9"]);
}

#[test]
fn probe_port_wildcards_use_loopback() {
    for h in ["0.0.0.0", "::", "", "  ", " 0.0.0.0 "] {
        let seen = RefCell::new(Vec::new());
        let probe = |h: &str, _p: u16| {
            seen.borrow_mut().push(h.to_string());
            false
        };
        assert!(!probe_port(&cfg_with_host(h), &probe));
        assert_eq!(*seen.borrow(), vec!["127.0.0.1", "::1"]);
    }
    let seen = RefCell::new(Vec::new());
    let probe = |h: &str, _p: u16| {
        seen.borrow_mut().push(h.to_string());
        true
    };
    assert!(probe_port(&cfg_with_host(" 192.168.1.5 "), &probe));
    assert_eq!(*seen.borrow(), vec!["192.168.1.5"]);
    assert!(cfg_http_ready(&cfg_with_host("::"), &|h: &str, _| h == "::1"));
}

#[test]
fn http_request_and_reply() {
    assert_eq!(http_request("127.0.0.1", 3081), "GET / HTTP/1.1\r\nHost: 127.0.0.1:3081\r\nConnection: close\r\n\r\n");
    assert!(is_http_response(b"HTTP/1.1 200 OK\r\n"));
    assert!(!is_http_response(b"HTTP"));
    assert!(!is_http_response(b"http/1.1 200"));
    assert!(!is_http_response(b""));
}

#[test]
fn netstat_parsing() {
    assert_eq!(netstat_args(), vec!["-ano", "-p", "TCP"]);
    let out = "\r\nActive Connections\r\n\r\n  Proto  Local Address          Foreign Address        State           PID\r\n  TCP    0.0.0.0:3081           0.0.0.0:0              LISTENING       4242\r\n  TCP    127.0.0.1:30810        0.0.0.0:0              LISTENING       7\r\n  TCP    127.0.0.1:3081         127.0.0.1:50000        ESTABLISHED     4242\r\n  TCP    [::]:3081              [::]:0                 LISTENING       +17\r\n  TCP    [::1]:3081             [::]:0                 LISTENING       x\r\n";
    assert_eq!(listening_pids(out, 3081), vec![4242, 17]);
    assert_eq!(listening_pids(out, 30810), vec![7]);
    assert_eq!(listening_pids("", 3081), Vec::<u32>::new());
}

#[test]
fn process_identity() {
    let a = command_line_args(1234);
    assert_eq!(a[3], "(Get-CimInstance Win32_Process -Filter \"ProcessId=1234\").CommandLine");
    assert_eq!(command_line_from("  node x.js web --port 1 \r\n"), Some("node x.js web --port 1".to_string()));
    assert_eq!(command_line_from(" \r\n"), None);
    assert!(is_dsh_process("\"C:\\node.exe\" C:\\npm\\node_modules\\@deepseek-ai\\DSH\\lib\\bin.js web --port 3081"));
    assert!(is_dsh_process("cmd /C DSH WEB --port 3081"));
    assert!(!is_dsh_process("node server.js web --port 3081"));
    assert!(is_dsh_process("dsh web"));
    assert!(is_dsh_process("cmd /C dsh web"));
    assert!(is_dsh_process("cmd /c dsh web"));
    assert!(!is_dsh_process("cmd /C dsh webby --port 1"));
    assert!(!is_dsh_process("C:\\dsh\\other.exe --serve"));
    assert!(is_dsh_lowercase("x bin.js web y"));
    assert_eq!(kill_tree_args(99), vec!["/PID", "99", "/T", "/F"]);
}

#[test]
fn identity_check_ignores_ascii_case() {
    for (a, b) in [
        ("CMD /C DSH WEB --PORT 3081", "cmd /c dsh web --port 3081"),
        ("Node Server.JS Web", "node server.js web"),
        ("NODE C:\\NPM\\BIN.JS WEB", "node c:\\npm\\bin.js web"),
    ] {
        assert_eq!(is_dsh_process(a), is_dsh_process(b));
    }
    assert!(is_dsh_process("CMD /C DSH WEB --PORT 3081"));
    assert!(!is_dsh_process("Node Server.JS Web"));
}

#[test]
fn status_and_ownership() {
    assert!(!owns_child(ChildState::Absent));
    assert!(owns_child(ChildState::Running));
    assert!(!owns_child(ChildState::Exited));
    assert!(owns_child(ChildState::Unknown));
    let c = AppConfig::default();
    let s = get_status(&c, ChildState::Exited, Some("http://127.0.0.1:3081/?token=t".into()), &|_: &str, _| true);
    assert!(s.port_in_use);
    assert!(!s.owned);
    assert_eq!(s.url, "http://127.0.0.1:3081");
    assert_eq!(s.authenticated_url, None);
    let own = get_status(&c, ChildState::Running, Some("http://127.0.0.1:3081/?token=t".into()), &|_: &str, _| true);
    assert!(own.owned);
    assert_eq!(own.authenticated_url, Some("http://127.0.0.1:3081/?token=t".to_string()));
    let none = get_status(&c, ChildState::Running, None, &|_: &str, _| false);
    assert!(!none.port_in_use);
    assert_eq!(none.authenticated_url, None);
}

#[test]
fn status_url_uses_fixed_host() {
    let mut c = AppConfig::default();
    c.web.host = "0.0.0.0".to_string();
    c.web.port = 4000;
    let s = get_status(&c, ChildState::Absent, None, &|_: &str, _| false);
    assert_eq!(s.url, "http://127.0.0.1:4000");
}

#[test]
fn authenticated_url_from_output_line() {
    assert_eq!(
        authenticated_url("dsh web: http://127.0.0.1:3081/?token=abc"),
        Some("http://127.0.0.1:3081/?token=abc".to_string())
    );
    assert_eq!(
        authenticated_url("[info] dsh web:   https://localhost:3081/#/?token=x1 (open in a browser)"),
        Some("https://localhost:3081/#/?token=x1".to_string())
    );
    assert_eq!(authenticated_url("dsh web: http://127.0.0.1:3081/"), None);
    assert_eq!(authenticated_url("dsh web: ftp://h/?token=a"), None);
    assert_eq!(authenticated_url("dsh web:"), None);
    assert_eq!(authenticated_url("listening on http://127.0.0.1:3081/?token=abc"), None);
}

#[test]
fn harness_navigation_order() {
    let c = AppConfig::default();
    let (first, then) = harness_navigation(&c, ChildState::Running, Some("http://127.0.0.1:3081/?token=t".into()));
    assert_eq!(first, "http://127.0.0.1:3081");
    assert_eq!(then, Some("http://127.0.0.1:3081/?token=t".to_string()));
    let (first2, then2) = harness_navigation(&c, ChildState::Running, None);
    assert_eq!(first2, "http://127.0.0.1:3081");
    assert_eq!(then2, None);
    let (_, then3) = harness_navigation(&c, ChildState::Absent, Some("http://127.0.0.1:3081/?token=t".into()));
    assert_eq!(then3, None);
}

#[test]
fn service_info_sources() {
    let c = AppConfig::default();
    let own = get_service_info(&c, ChildState::Running, Some(5), Some(1000), "log".into(), &|_: &str, _| panic!(), &|_| panic!());
    assert_eq!(own.pid, Some(5));
    assert_eq!(own.started_at_ms, Some(1000));
    assert_eq!(own.log_path, "log");
    let ext = get_service_info(&c, ChildState::Absent, None, Some(1000), String::new(), &|_: &str, _| true, &|p| vec![p as u32, 1]);
    assert_eq!(ext.pid, Some(3081));
    assert_eq!(ext.started_at_ms, None);
    let none = get_service_info(&c, ChildState::Exited, Some(5), None, String::new(), &|_: &str, _| false, &|_| panic!());
    assert_eq!(none.pid, None);
}

#[test]
fn service_command_shapes() {
    let node = "C:\\node.exe".to_string();
    let c = service_command(&node, Some("C:\\bin.js".into()), 3081);
    assert_eq!(c.program, "C:\\node.exe");
    assert_eq!(c.args, vec!["C:\\bin.js", "--profile", "web", "--no-open", "--port", "3081"]);
    let c2 = service_command(&node, None, 8080);
    assert_eq!(c2.program, "cmd");
    assert_eq!(c2.args, vec!["/C", "dsh", "--profile", "web", "--no-open", "--port", "8080"]);
}

fn plan(timeout: u64) -> StartPlan {
    let mut c = AppConfig::default();
    c.service.start_timeout_secs = timeout;
    StartPlan::new(&c)
}

#[test]
fn start_flow_missing_tools() {
    match plan(25).node_found(None) {
        StartStep::Finish(Err(StartError::NodeMissing)) => {}
        _ => panic!("node missing"),
    }
    let StartStep::Next(n) = plan(25).node_found(Some("node".into())) else { panic!() };
    match n.dsh_found(None) {
        StartStep::Finish(Err(StartError::DshMissing)) => {}
        _ => panic!("dsh missing"),
    }
}

#[test]
fn start_flow_port_in_use_is_already_running() {
    let StartStep::Next(n) = plan(25).node_found(Some("node".into())) else { panic!() };
    let StartStep::Next(e) = n.dsh_found(Some("dsh.cmd".into())) else { panic!() };
    match e.port_probed(true, ChildState::Absent, None) {
        StartStep::Finish(Ok(StartOutcome::AlreadyRunning { url })) => assert_eq!(url, "http://127.0.0.1:3081"),
        _ => panic!("already running"),
    }
    let StartStep::Next(n) = plan(25).node_found(Some("node".into())) else { panic!() };
    let StartStep::Next(e) = n.dsh_found(Some("dsh.cmd".into())) else { panic!() };
    match e.port_probed(true, ChildState::Running, Some("http://127.0.0.1:3081/?token=k".into())) {
        StartStep::Finish(Ok(StartOutcome::AlreadyRunning { url })) => assert_eq!(url, "http://127.0.0.1:3081/?token=k"),
        _ => panic!("already running"),
    }
    // an outside instance: no token of it is known
    let StartStep::Next(n) = plan(25).node_found(Some("node".into())) else { panic!() };
    let StartStep::Next(e) = n.dsh_found(Some("dsh.cmd".into())) else { panic!() };
    match e.port_probed(true, ChildState::Exited, Some("http://127.0.0.1:3081/?token=old".into())) {
        StartStep::Finish(Ok(StartOutcome::AlreadyRunning { url })) => assert_eq!(url, "http://127.0.0.1:3081"),
        _ => panic!("already running"),
    }
}

#[test]
fn start_flow_to_started_and_failures() {
    let p = plan(2);
    assert_eq!(p.timeout_secs, 5);
    let StartStep::Next(n) = p.node_found(Some("node".into())) else { panic!() };
    let StartStep::Next(e) = n.dsh_found(Some("dsh.cmd".into())) else { panic!() };
    let StartStep::Next(f) = e.port_probed(false, ChildState::Absent, None) else { panic!() };
    assert_eq!(f.shim, "dsh.cmd");
    let (launching, cmd) = f.entry_resolved(Some("bin.js".into()));
    assert_eq!(cmd.program, "node");
    assert_eq!(cmd.args, vec!["bin.js", "--profile", "web", "--no-open", "--port", "3081"]);
    let StartStep::Next(w) = launching.launched(Ok("L.log".into())) else { panic!() };
    match w.poll(true, || panic!(), || panic!(), || panic!()) {
        Poll::Failed(StartError::NotReady(m)) => assert_eq!(m, "启动超时（5s），请查看日志: L.log"),
        _ => panic!("timeout"),
    }
    assert!(matches!(w.poll(false, || false, || panic!(), || false), Poll::Wait));
    assert!(matches!(w.poll(false, || true, || false, || false), Poll::Wait));
    match w.poll(false, || true, || false, || true) {
        Poll::Failed(StartError::NotReady(m)) => assert_eq!(m, "dsh 进程提前退出，请查看日志: L.log"),
        _ => panic!("exited"),
    }
    assert!(matches!(w.poll(false, || true, || true, || panic!()), Poll::Ready));
    match w.started(Some("http://127.0.0.1:3081/?token=z".into())) {
        StartOutcome::Started { url } => assert_eq!(url, "http://127.0.0.1:3081/?token=z"),
        _ => panic!("started"),
    }
}

#[test]
fn started_without_token_reports_base_url() {
    let StartStep::Next(n) = plan(25).node_found(Some("node".into())) else { panic!() };
    let StartStep::Next(e) = n.dsh_found(Some("dsh.cmd".into())) else { panic!() };
    let StartStep::Next(f) = e.port_probed(false, ChildState::Absent, None) else { panic!() };
    let (launching, _) = f.entry_resolved(None);
    let StartStep::Next(w) = launching.launched(Ok("L.log".into())) else { panic!() };
    match w.started(None) {
        StartOutcome::Started { url } => assert_eq!(url, "http://127.0.0.1:3081"),
        _ => panic!("started"),
    }
}

#[test]
fn launch_failure_messages() {
    let cases = [
        (LaunchFailure::LogDir("e".into()), "无法获取日志目录: e"),
        (LaunchFailure::LogFile("e".into()), "无法打开日志文件: e"),
        (LaunchFailure::LogClone("e".into()), "无法克隆日志句柄: e"),
        (LaunchFailure::Spawn("e".into()), "启动 dsh 失败: e"),
    ];
    for (f, msg) in cases {
        let StartStep::Next(n) = plan(25).node_found(Some("n".into())) else { panic!() };
        let StartStep::Next(e) = n.dsh_found(Some("d".into())) else { panic!() };
        let StartStep::Next(pf) = e.port_probed(false, ChildState::Absent, None) else { panic!() };
        let (l, _) = pf.entry_resolved(None);
        match l.launched(Err(f)) {
            StartStep::Finish(Err(StartError::SpawnFailed(m))) => assert_eq!(m, msg),
            _ => panic!("spawn failed"),
        }
    }
}

#[test]
fn restart_rules() {
    let r = restart_service(ChildState::Absent, || panic!("not restarted"));
    assert!(matches!(r, Err(StartError::NotOwned)));
    let r2 = restart_service(ChildState::Exited, || panic!("not restarted"));
    assert!(matches!(r2, Err(StartError::NotOwned)));
    let ok = restart_service(ChildState::Running, || Ok(StartOutcome::Started { url: "u".into() }));
    assert!(matches!(ok, Ok(StartOutcome::Started { url }) if url == "u"));
    let e = restart_service(ChildState::Unknown, || Err(StartError::NotReady("a\"b".into())));
    assert!(matches!(e, Err(StartError::NotReady(m)) if m == "a\"b"));
    let e2 = restart_service(ChildState::Running, || Err(StartError::NodeMissing));
    assert!(matches!(e2, Err(StartError::NodeMissing)));
}
