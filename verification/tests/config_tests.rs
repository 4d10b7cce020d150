use dsh_desktop::config::{
    autostart_query_args, autostart_reg_outcome, autostart_set_args, get_config, resolve_theme_dark,
    set_autostart, set_config, system_dark, theme_mode_from, theme_mode_str, theme_query_args,
    AppConfig, ThemeMode, CONFIG_NOTE, HOST_FIXED,
};

#[test]
fn default_config_values() {
    let c = AppConfig::default();
    assert_eq!(c.web.host, "127.0.0.1");
    assert_eq!(c.web.port, 3081);
    assert_eq!(c.service.start_timeout_secs, 25);
    assert!(c.service.auto_start);
    assert!(!c.devtools.auto_open);
    assert_eq!(c.theme.mode, ThemeMode::System);
    assert!(!c.autostart);
    assert_eq!(c.note, CONFIG_NOTE);
}

#[test]
fn web_url_is_loopback_and_port() {
    let mut c = AppConfig::default();
    assert_eq!(c.web_url(), "http://127.0.0.1:3081");
    c.web.host = "0.0.0.0".to_string();
    c.web.port = 0;
    assert_eq!(c.web_url(), "http://127.0.0.1:0");
    c.web.port = 65535;
    assert_eq!(c.web_url(), "http://127.0.0.1:65535");
}

#[test]
fn load_uses_parsed_or_defaults_and_registry_mirror() {
    let mut parsed = AppConfig::default();
    parsed.web.port = 4000;
    parsed.autostart = false;
    let c = AppConfig::load(Some(parsed), true);
    assert_eq!(c.web.port, 4000);
    assert!(c.autostart);
    let d = AppConfig::load(None, false);
    assert_eq!(d.web.port, 3081);
    assert!(!d.autostart);
}

#[test]
fn load_normalizes_an_older_host() {
    let mut parsed = AppConfig::default();
    parsed.web.host = "0.0.0.0".to_string();
    parsed.web.port = 3081;
    let c = AppConfig::load(Some(parsed), false);
    assert_eq!(c.web.host, "127.0.0.1");
    assert_eq!(c.web.port, 3081);
}

#[test]
fn theme_resolution() {
    assert!(resolve_theme_dark(&ThemeMode::Dark, || panic!("not asked")));
    assert!(!resolve_theme_dark(&ThemeMode::Light, || panic!("not asked")));
    assert!(resolve_theme_dark(&ThemeMode::System, || true));
    assert!(!resolve_theme_dark(&ThemeMode::System, || false));
}

#[test]
fn theme_names_round_trip() {
    for m in [ThemeMode::System, ThemeMode::Light, ThemeMode::Dark] {
        assert_eq!(theme_mode_from(&theme_mode_str(&m)), m);
    }
    assert_eq!(theme_mode_str(&ThemeMode::Dark), "dark");
    assert_eq!(theme_mode_from("LIGHT"), ThemeMode::System);
    assert_eq!(theme_mode_from("purple"), ThemeMode::System);
}

#[test]
fn get_config_reports_fields() {
    let mut c = AppConfig::default();
    c.theme.mode = ThemeMode::Light;
    c.autostart = true;
    let i = get_config(&c);
    assert_eq!(i.web_port, 3081);
    assert_eq!(i.web_host, "127.0.0.1");
    assert_eq!(i.web_url, "http://127.0.0.1:3081");
    assert!(!i.auto_open_devtools);
    assert!(i.auto_start);
    assert_eq!(i.theme_mode, "light");
    assert!(i.autostart);
}

#[test]
fn set_config_applies_given_fields() {
    let mut c = AppConfig::default();
    let r = set_config(&mut c, Some(4000), Some("  \"127.0.0.1\" ".to_string()), Some(false), Some("dark".to_string()), Some(true));
    assert_eq!(r, Ok(()));
    assert_eq!(c.web.port, 4000);
    assert_eq!(c.web.host, "127.0.0.1");
    assert!(!c.service.auto_start);
    assert_eq!(c.theme.mode, ThemeMode::Dark);
    assert!(c.devtools.auto_open);
    assert_eq!(set_config(&mut c, None, None, None, None, None), Ok(()));
    assert_eq!(c.web.port, 4000);
    assert_eq!(c.theme.mode, ThemeMode::Dark);
}

#[test]
fn set_config_refuses_another_host() {
    let mut c = AppConfig::default();
    let r = set_config(&mut c, Some(4000), Some("0.0.0.0".to_string()), Some(false), Some("dark".to_string()), Some(true));
    assert_eq!(r, Err(HOST_FIXED.to_string()));
    assert_eq!(c.web.host, "127.0.0.1");
    assert_eq!(c.web.port, 3081);
    assert!(c.service.auto_start);
    assert_eq!(c.theme.mode, ThemeMode::System);
    assert!(!c.devtools.auto_open);
}

#[test]
fn set_config_blank_host_is_the_fixed_host() {
    let mut c = AppConfig::default();
    assert_eq!(set_config(&mut c, None, Some(" \"\" ".to_string()), None, None, None), Ok(()));
    assert_eq!(c.web.host, "127.0.0.1");
    assert_eq!(set_config(&mut c, None, Some("   ".to_string()), None, Some("unknown".to_string()), None), Ok(()));
    assert_eq!(c.web.host, "127.0.0.1");
    assert_eq!(c.theme.mode, ThemeMode::System);
}

#[test]
fn set_autostart_follows_registry() {
    let mut c = AppConfig::default();
    assert!(set_autostart(&mut c, true, Ok(())).is_ok());
    assert!(c.autostart);
    let r = set_autostart(&mut c, false, Err("reg 执行失败: x".to_string()));
    assert_eq!(r, Err("reg 执行失败: x".to_string()));
    assert!(c.autostart);
}

#[test]
fn registry_arguments() {
    let q = autostart_query_args();
    assert_eq!(q, vec!["query", r"HKCU\Software\Microsoft\Windows\CurrentVersion\Run", "/v", "DSH-Desktop"]);
    let add = autostart_set_args(true, r"C:\Apps\dsh desktop.exe");
    assert_eq!(
        add,
        vec![
            "add",
            r"HKCU\Software\Microsoft\Windows\CurrentVersion\Run",
            "/v",
            "DSH-Desktop",
            "/t",
            "REG_SZ",
            "/d",
            r#""C:\Apps\dsh desktop.exe""#,
            "/f"
        ]
    );
    let del = autostart_set_args(false, "ignored");
    assert_eq!(del, vec!["delete", r"HKCU\Software\Microsoft\Windows\CurrentVersion\Run", "/v", "DSH-Desktop", "/f"]);
    let t = theme_query_args();
    assert_eq!(t[1], r"HKCU\Software\Microsoft\Windows\CurrentVersion\Themes\Personalize");
    assert_eq!(t[3], "AppsUseLightTheme");
}

#[test]
fn registry_outcome_messages() {
    assert!(autostart_reg_outcome(true, Some(1)).is_ok());
    assert_eq!(autostart_reg_outcome(false, Some(1)), Err("reg 操作失败（exit 1）".to_string()));
    assert_eq!(autostart_reg_outcome(false, None), Err("reg 操作失败（exit -1）".to_string()));
    assert_eq!(autostart_reg_outcome(false, Some(i32::MIN)), Err("reg 操作失败（exit -2147483648）".to_string()));
}

#[test]
fn system_dark_reading() {
    assert!(!system_dark(None));
    assert!(!system_dark(Some("")));
    assert!(!system_dark(Some("\r\n   \r\n")));
    assert!(!system_dark(Some("\n  AppsUseLightTheme    REG_DWORD    0x1\n")));
    assert!(system_dark(Some("\n  AppsUseLightTheme    REG_DWORD    0x0\n")));
    let light = "\r\nHKEY_CURRENT_USER\\Software\\Microsoft\\Windows\\CurrentVersion\\Themes\\Personalize\r\n    AppsUseLightTheme    REG_DWORD    0x1\r\n\r\n";
    assert!(!system_dark(Some(light)));
    let dark = "\r\nHKEY_CURRENT_USER\\Software\\Microsoft\\Windows\\CurrentVersion\\Themes\\Personalize\r\n    AppsUseLightTheme    REG_DWORD    0x0\r\n\r\n";
    assert!(system_dark(Some(dark)));
    // a successful query without the value reads as light
    assert!(!system_dark(Some("HKEY_CURRENT_USER\\Personalize\r\n")));
}
