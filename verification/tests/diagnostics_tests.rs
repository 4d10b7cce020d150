use dsh_desktop::config::AppConfig;
use dsh_desktop::diagnostics::{port_diag, run_diagnostics, DSH_MISSING};

#[test]
fn all_good_environment() {
    let c = AppConfig::default();
    let items = run_diagnostics(
        &c,
        false,
        &|n: &str| Some(format!("C:\\{n}.cmd")),
        &|p: &String| Some(if p.contains("node") { "v20.11.0".to_string() } else { "0.9.1".to_string() }),
        &|_: &String| Some("C:\\bin.js".to_string()),
        &|_: &str, _| false,
        &|_| panic!(),
        &|_| panic!(),
        &|h: &str, p| h == "127.0.0.1" && p == 3081,
        &|| Ok(("C:\\logs".to_string(), true)),
        &|| Some("C:\\cfg\\config.json".to_string()),
        &|_: &String| Some("{\"web\": {\"port\": 3081}}".to_string()),
    );
    assert_eq!(items.len(), 6);
    let rows: Vec<(String, bool, String)> = items.into_iter().map(|i| (i.check, i.ok, i.detail)).collect();
    assert_eq!(rows[0], ("Node.js".into(), true, "C:\\node.cmd（v20.11.0）".into()));
    assert_eq!(rows[1], ("dsh".into(), true, "C:\\dsh.cmd（0.9.1） → C:\\bin.js".into()));
    assert_eq!(rows[2], ("端口 3081".into(), true, "空闲".into()));
    assert_eq!(rows[3], ("Web 连通性".into(), true, "http://127.0.0.1:3081（HTTP 响应正常）".into()));
    assert_eq!(rows[4], ("日志目录".into(), true, "C:\\logs".into()));
    assert_eq!(rows[5], ("配置文件".into(), true, "C:\\cfg\\config.json".into()));
}

#[test]
fn broken_environment() {
    let c = AppConfig::default();
    let items = run_diagnostics(
        &c,
        false,
        &|_: &str| None,
        &|_: &String| panic!(),
        &|_: &String| panic!(),
        &|_: &str, _| true,
        &|_| vec![],
        &|_| panic!(),
        &|_: &str, _| false,
        &|| Ok(("C:\\logs".to_string(), false)),
        &|| None,
        &|_: &String| panic!(),
    );
    let rows: Vec<(String, bool, String)> = items.into_iter().map(|i| (i.check, i.ok, i.detail)).collect();
    assert_eq!(rows[0], ("Node.js".into(), false, "PATH 中未找到 node，请先安装 Node.js".into()));
    assert_eq!(rows[1], ("dsh".into(), false, "PATH 中未找到 dsh，请执行 npm install -g @deepseek/dsh".into()));
    assert_eq!(rows[1].2, DSH_MISSING);
    assert_eq!(rows[2], ("端口 3081".into(), false, "被外部进程占用（未定位到监听 PID）".into()));
    assert_eq!(rows[3], ("Web 连通性".into(), false, "无法访问: http://127.0.0.1:3081".into()));
    assert_eq!(rows[4], ("日志目录".into(), false, "不可写: C:\\logs".into()));
    assert_eq!(rows[5], ("配置文件".into(), false, "无法确定路径（APPDATA 未设置）".into()));
}

#[test]
fn shim_without_entry_and_bad_config() {
    let c = AppConfig::default();
    let items = run_diagnostics(
        &c,
        true,
        &|n: &str| Some(n.to_string()),
        &|_: &String| None,
        &|_: &String| None,
        &|_: &str, _| true,
        &|_| panic!(),
        &|_| panic!(),
        &|_: &str, _| true,
        &|| Err("no log dir".to_string()),
        &|| Some("p.json".to_string()),
        &|_: &String| Some("{not json".to_string()),
    );
    assert_eq!(items[0].detail, "node（版本未知）");
    assert_eq!(items[1].detail, "dsh（版本未知）（未解析出 JS 入口，将回退 cmd /C dsh）");
    assert_eq!(items[2].detail, "由本应用托管（正常运行）");
    assert!(items[2].ok);
    assert!(items[3].ok);
    assert_eq!((items[4].ok, items[4].detail.as_str()), (false, "no log dir"));
    assert_eq!((items[5].ok, items[5].detail.as_str()), (false, "缺失或解析失败: p.json"));
    let missing = run_diagnostics(
        &c, true, &|_: &str| None, &|_: &String| None, &|_: &String| None, &|_: &str, _| false,
        &|_| panic!(), &|_| panic!(), &|_: &str, _| false,
        &|| Ok(("d".to_string(), true)), &|| Some("p".to_string()), &|_: &String| None,
    );
    assert_eq!(missing[5].detail, "缺失或解析失败: p");
}

#[test]
fn external_port_holder_is_named() {
    let c = AppConfig::default();
    let long = "x".repeat(100);
    let it = port_diag(&c, false, &|_: &str, _| true, &|_| vec![321, 5], &|_| Some(long.clone()));
    assert!(!it.ok);
    assert_eq!(it.detail, format!("被外部进程占用（PID 321；命令行：{}…）——若为 dsh 残留可清理，非 dsh 进程会拒绝终止", "x".repeat(90)));
    let it2 = port_diag(&c, false, &|_: &str, _| true, &|_| vec![321], &|_| None);
    assert_eq!(it2.detail, "被外部进程占用（PID 321）——若为 dsh 残留可清理，非 dsh 进程会拒绝终止");
}
