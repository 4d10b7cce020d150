use dsh_desktop::config::AppConfig;
use dsh_desktop::logging::NORMAL_SHUTDOWN_LINE;
use dsh_desktop::service::ChildState;
use dsh_desktop::stale::{check_stale_info, clean_stale_finish, clean_stale_plan, join_pids_exec, CleanPlan};

#[test]
fn stale_nothing_while_owned() {
    let c = AppConfig::default();
    let s = check_stale_info(&c, ChildState::Running, &|| panic!(), &|_: &str, _| panic!(), &|_| panic!());
    assert!(!s.abnormal_exit && !s.external_occupied && s.port_pid.is_none());
}

#[test]
fn stale_abnormal_exit_detection() {
    let c = AppConfig::default();
    let s = check_stale_info(&c, ChildState::Absent, &|| "started\n".to_string(), &|_: &str, _| false, &|_| panic!());
    assert!(s.abnormal_exit);
    assert!(!s.external_occupied);
    let clean = format!("started\n{NORMAL_SHUTDOWN_LINE}\n");
    let s2 = check_stale_info(&c, ChildState::Exited, &|| clean.clone(), &|_: &str, _| false, &|_| panic!());
    assert!(!s2.abnormal_exit);
    let s3 = check_stale_info(&c, ChildState::Absent, &|| " \n".to_string(), &|_: &str, _| false, &|_| panic!());
    assert!(!s3.abnormal_exit);
}

#[test]
fn stale_mark_counts_only_in_recent_lines() {
    let c = AppConfig::default();
    let mut old = format!("started\n{NORMAL_SHUTDOWN_LINE}\n");
    for i in 0..50 {
        old.push_str(&format!("line {i}\n"));
    }
    // the mark is 51 lines from the end: the later run ended abnormally
    let s = check_stale_info(&c, ChildState::Absent, &|| old.clone(), &|_: &str, _| false, &|_| panic!());
    assert!(s.abnormal_exit);
    let mut recent = format!("started\n{NORMAL_SHUTDOWN_LINE}\n");
    for i in 0..49 {
        recent.push_str(&format!("line {i}\n"));
    }
    // the mark is the 50th line from the end
    let s2 = check_stale_info(&c, ChildState::Absent, &|| recent.clone(), &|_: &str, _| false, &|_| panic!());
    assert!(!s2.abnormal_exit);
}

#[test]
fn stale_external_occupation() {
    let c = AppConfig::default();
    let s = check_stale_info(&c, ChildState::Absent, &|| "x".to_string(), &|_: &str, _| true, &|_| vec![77, 78]);
    assert!(!s.abnormal_exit);
    assert!(s.external_occupied);
    assert_eq!(s.port_pid, Some(77));
    let s2 = check_stale_info(&c, ChildState::Absent, &|| "x".to_string(), &|_: &str, _| true, &|_| vec![]);
    assert_eq!(s2.port_pid, None);
}

fn done(p: CleanPlan) -> Result<(bool, String), String> {
    match p {
        CleanPlan::Done(r) => r.map(|c| (c.cleaned, c.detail)),
        CleanPlan::Kill(_) => panic!("kill"),
    }
}

#[test]
fn clean_refusals() {
    let c = AppConfig::default();
    assert_eq!(done(clean_stale_plan(&c, true, &|_: &str, _| panic!(), &|_| panic!(), &|_| panic!())), Err("服务由本应用托管，无需清理".to_string()));
    assert_eq!(done(clean_stale_plan(&c, false, &|_: &str, _| false, &|_| panic!(), &|_| panic!())), Ok((false, "未发现端口占用，无残留进程".to_string())));
    assert_eq!(done(clean_stale_plan(&c, false, &|_: &str, _| true, &|_| vec![], &|_| panic!())), Ok((false, "端口被占用但未定位到监听进程（可能是非 TCP 监听或权限受限）".to_string())));
    assert_eq!(
        done(clean_stale_plan(&c, false, &|_: &str, _| true, &|_| vec![10, 11], &|p| if p == 10 { Some("nginx -g daemon".into()) } else { None })),
        Ok((false, "端口 3081 的占用进程（PID 10, 11）不是 dsh 服务，已中止清理以避免误杀".to_string()))
    );
}

#[test]
fn clean_kills_only_confirmed_dsh() {
    let c = AppConfig::default();
    let plan = clean_stale_plan(&c, false, &|_: &str, _| true, &|_| vec![5, 6, 7], &|p| match p {
        5 => Some("node C:\\npm\\node_modules\\@deepseek-ai\\dsh\\lib\\bin.js web --port 3081".into()),
        6 => Some("python -m http.server".into()),
        _ => Some("cmd /C dsh web --port 3081".into()),
    });
    match plan {
        CleanPlan::Kill(k) => assert_eq!(k, vec![5, 7]),
        CleanPlan::Done(_) => panic!("expected kill"),
    }
}

#[test]
fn clean_finish_reports() {
    let r = clean_stale_finish(&vec![5, 7], false);
    assert!(r.cleaned);
    assert_eq!(r.detail, "已清理残留 dsh 进程: 5, 7");
    let r2 = clean_stale_finish(&vec![5], true);
    assert!(!r2.cleaned);
    assert_eq!(r2.detail, "已结束 dsh 进程但端口仍被占用（可能还有其他进程绑定同一端口）");
    let j: String = join_pids_exec(&vec![]).iter().collect();
    assert_eq!(j, "");
}
