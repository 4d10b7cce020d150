//! Configuration model (`config.json`): defaults, the web address, theme
//! resolution, the settings commands and the registry autostart arguments.
use vstd::prelude::*;

use crate::text::{
    chars_of, decimal, decimal_exec, lines, lines_exec, push_all, push_str, same_str, signed_decimal,
    signed_decimal_exec, slice, string_of, trim, trim_char, trim_matches, trim_ws, words, words_exec,
};

verus! {

/// Host that the service binds when none is configured.
pub const DEFAULT_HOST: &'static str = "127.0.0.1";

/// Port of the `dsh web` service by default.
pub const DEFAULT_PORT: u16 = 3081;

/// Seconds to wait for the service to start, by default.
pub const DEFAULT_START_TIMEOUT_SECS: u64 = 25;

/// Explanation written into a fresh configuration file.
pub const CONFIG_NOTE: &'static str = "DSH 桌面端配置文件。修改后重启应用生效。web.port 为 dsh web 服务端口（默认 3081，避开 Harness 默认 3080 可与现有会话并存）；web.host 为绑定主机；service.startTimeoutSecs 为服务启动等待上限（秒）；service.autoStart 为启动应用时自动拉起服务；devtools.autoOpen 为调试用自动打开开发者工具；theme.mode 为界面主题（system/light/dark）；autostart 为开机自启状态（注册表镜像）。";

/// Registry key of the per-user `Run` entries.
pub const AUTOSTART_RUN_KEY: &'static str = "HKCU\\Software\\Microsoft\\Windows\\CurrentVersion\\Run";

/// Name of this application's `Run` entry.
pub const AUTOSTART_VALUE: &'static str = "DSH-Desktop";

/// Registry key holding the Windows personalisation settings.
pub const PERSONALIZE_KEY: &'static str = "HKCU\\Software\\Microsoft\\Windows\\CurrentVersion\\Themes\\Personalize";

/// Web service binding.
pub struct WebConfig {
    pub host: String,
    pub port: u16,
}

/// Service start settings.
pub struct ServiceConfig {
    pub start_timeout_secs: u64,
    pub auto_start: bool,
}

/// Debugging settings.
pub struct DevtoolsConfig {
    pub auto_open: bool,
}

/// Theme mode: follow the system, light or dark.
#[derive(PartialEq, Eq, Structural, Clone, Copy, Debug)]
pub enum ThemeMode {
    System,
    Light,
    Dark,
}

/// Theme settings.
pub struct ThemeConfig {
    pub mode: ThemeMode,
}

/// The whole configuration.
pub struct AppConfig {
    pub note: String,
    pub web: WebConfig,
    pub service: ServiceConfig,
    pub devtools: DevtoolsConfig,
    pub theme: ThemeConfig,
    /// Mirror of the registry autostart entry (the registry decides at load).
    pub autostart: bool,
}

impl Default for WebConfig {
    fn default() -> (r: Self)
        ensures
            r.host@ == DEFAULT_HOST@,
            r.port == DEFAULT_PORT,
    {
        WebConfig { host: String::from_str(DEFAULT_HOST), port: DEFAULT_PORT }
    }
}

impl Default for ServiceConfig {
    fn default() -> (r: Self)
        ensures
            r.start_timeout_secs == DEFAULT_START_TIMEOUT_SECS,
            r.auto_start,
    {
        ServiceConfig { start_timeout_secs: DEFAULT_START_TIMEOUT_SECS, auto_start: true }
    }
}

impl Default for DevtoolsConfig {
    fn default() -> (r: Self)
        ensures
            !r.auto_open,
    {
        DevtoolsConfig { auto_open: false }
    }
}

impl Default for ThemeMode {
    fn default() -> (r: Self)
        ensures
            r == ThemeMode::System,
    {
        ThemeMode::System
    }
}

impl Default for ThemeConfig {
    fn default() -> (r: Self)
        ensures
            r.mode == ThemeMode::System,
    {
        ThemeConfig { mode: ThemeMode::System }
    }
}

/// `cfg` holds the default settings (apart from the autostart mirror).
pub open spec fn is_default_settings(cfg: AppConfig) -> bool {
    &&& cfg.note@ == CONFIG_NOTE@
    &&& cfg.web.host@ == DEFAULT_HOST@
    &&& cfg.web.port == DEFAULT_PORT
    &&& cfg.service.start_timeout_secs == DEFAULT_START_TIMEOUT_SECS
    &&& cfg.service.auto_start
    &&& !cfg.devtools.auto_open
    &&& cfg.theme.mode == ThemeMode::System
}

impl Default for AppConfig {
    fn default() -> (r: Self)
        ensures
            is_default_settings(r),
            !r.autostart,
    {
        AppConfig {
            note: String::from_str(CONFIG_NOTE),
            web: WebConfig::default(),
            service: ServiceConfig::default(),
            devtools: DevtoolsConfig::default(),
            theme: ThemeConfig::default(),
            autostart: false,
        }
    }
}

/// The service address `http://127.0.0.1:{port}`: the service is bound to
/// the loopback host only.
pub open spec fn web_url_of(port: u16) -> Seq<char> {
    "http://"@ + DEFAULT_HOST@ + ":"@ + decimal(port as nat)
}

impl AppConfig {
    /// The web address of the service.
    pub fn web_url(&self) -> (r: String)
        ensures
            r@ == web_url_of(self.web.port),
    {
        let mut v = chars_of("http://");
        push_str(&mut v, DEFAULT_HOST);
        push_str(&mut v, ":");
        let p = decimal_exec(self.web.port as u64);
        push_all(&mut v, &p);
        string_of(&v)
    }

    /// The configuration in effect after reading the file: the parsed one, or
    /// the defaults when there is none or it did not parse, with the autostart
    /// mirror taken from the registry and the host normalized to the fixed
    /// loopback host (older files may name another one).
    pub fn load(parsed: Option<AppConfig>, autostart_enabled: bool) -> (r: AppConfig)
        ensures
            match parsed {
                Some(c) => {
                    &&& r.note == c.note
                    &&& r.web.port == c.web.port
                    &&& r.service == c.service
                    &&& r.devtools == c.devtools
                    &&& r.theme == c.theme
                },
                None => is_default_settings(r),
            },
            r.web.host@ == DEFAULT_HOST@,
            r.autostart == autostart_enabled,
    {
        let mut cfg = match parsed {
            Some(c) => c,
            None => AppConfig::default(),
        };
        cfg.autostart = autostart_enabled;
        cfg.web.host = String::from_str(DEFAULT_HOST);
        cfg
    }

    /// A field-by-field copy.
    pub fn copy(&self) -> (r: AppConfig)
        ensures
            r == *self,
    {
        AppConfig {
            note: self.note.clone(),
            web: WebConfig { host: self.web.host.clone(), port: self.web.port },
            service: ServiceConfig {
                start_timeout_secs: self.service.start_timeout_secs,
                auto_start: self.service.auto_start,
            },
            devtools: DevtoolsConfig { auto_open: self.devtools.auto_open },
            theme: ThemeConfig { mode: self.theme.mode },
            autostart: self.autostart,
        }
    }
}

// ---------------------------------------------------------------- theme

/// Dark or light for a mode; `System` defers to the system setting, which
/// `system_is_dark` reads (only for that mode).
pub fn resolve_theme_dark<F: Fn() -> bool>(mode: &ThemeMode, system_is_dark: F) -> (r: bool)
    requires
        call_requires(system_is_dark, ()),
    ensures
        *mode == ThemeMode::Dark ==> r,
        *mode == ThemeMode::Light ==> !r,
        *mode == ThemeMode::System ==> call_ensures(system_is_dark, (), r),
{
    match mode {
        ThemeMode::Dark => true,
        ThemeMode::Light => false,
        ThemeMode::System => system_is_dark(),
    }
}

/// Name of a mode as the settings page shows it.
pub open spec fn theme_mode_name(mode: ThemeMode) -> Seq<char> {
    match mode {
        ThemeMode::System => "system"@,
        ThemeMode::Light => "light"@,
        ThemeMode::Dark => "dark"@,
    }
}

/// The mode that a settings name selects; any other name selects `System`.
pub open spec fn theme_mode_named(name: Seq<char>) -> ThemeMode {
    if name == "light"@ {
        ThemeMode::Light
    } else if name == "dark"@ {
        ThemeMode::Dark
    } else {
        ThemeMode::System
    }
}

/// Name of a theme mode.
pub fn theme_mode_str(mode: &ThemeMode) -> (r: String)
    ensures
        r@ == theme_mode_name(*mode),
{
    match mode {
        ThemeMode::System => String::from_str("system"),
        ThemeMode::Light => String::from_str("light"),
        ThemeMode::Dark => String::from_str("dark"),
    }
}

/// Theme mode selected by a name.
pub fn theme_mode_from(name: &str) -> (r: ThemeMode)
    ensures
        r == theme_mode_named(name@),
{
    let v = chars_of(name);
    if same_str(&v, "light") {
        ThemeMode::Light
    } else if same_str(&v, "dark") {
        ThemeMode::Dark
    } else {
        ThemeMode::System
    }
}

/// Reading back the name of a mode gives the mode.
pub proof fn lemma_theme_mode_roundtrip(mode: ThemeMode)
    ensures
        theme_mode_named(theme_mode_name(mode)) == mode,
{
    reveal_strlit("light");
    reveal_strlit("dark");
    reveal_strlit("system");
    assert("system"@ != "light"@) by {
        assert("system"@[0] != "light"@[0]);
    }
    assert("system"@ != "dark"@) by {
        assert("system"@.len() != "dark"@.len());
    }
    assert("dark"@ != "light"@) by {
        assert("dark"@.len() != "light"@.len());
    }
}

// ---------------------------------------------------------------- settings commands

/// What the settings page reads.
pub struct ConfigInfo {
    pub web_port: u16,
    pub web_host: String,
    pub web_url: String,
    pub auto_open_devtools: bool,
    pub auto_start: bool,
    pub theme_mode: String,
    pub autostart: bool,
}

/// The settings page's view of a configuration.
pub fn get_config(cfg: &AppConfig) -> (r: ConfigInfo)
    ensures
        r.web_port == cfg.web.port,
        r.web_host@ == cfg.web.host@,
        r.web_url@ == web_url_of(cfg.web.port),
        r.auto_open_devtools == cfg.devtools.auto_open,
        r.auto_start == cfg.service.auto_start,
        r.theme_mode@ == theme_mode_name(cfg.theme.mode),
        r.autostart == cfg.autostart,
{
    ConfigInfo {
        web_port: cfg.web.port,
        web_host: cfg.web.host.clone(),
        web_url: cfg.web_url(),
        auto_open_devtools: cfg.devtools.auto_open,
        auto_start: cfg.service.auto_start,
        theme_mode: theme_mode_str(&cfg.theme.mode),
        autostart: cfg.autostart,
    }
}

/// The host that a settings entry names: the entry with surrounding
/// whitespace and then double quotes removed, or the fixed host when nothing
/// is left.
pub open spec fn host_setting(entry: Seq<char>) -> Seq<char> {
    let h = trim_char(trim(entry), '"');
    if h.len() == 0 {
        DEFAULT_HOST@
    } else {
        h
    }
}

/// A settings entry that names the fixed host (or nothing).
pub open spec fn host_accepted(entry: Option<String>) -> bool {
    match entry {
        Some(h) => host_setting(h@) == DEFAULT_HOST@,
        None => true,
    }
}

/// The error of a settings call that names another host.
pub const HOST_FIXED: &'static str = "服务主机固定为 127.0.0.1，不支持修改";

/// A stored host is never empty: an entry that trims to nothing stores the
/// default host.
pub proof fn lemma_host_setting_nonempty(entry: Seq<char>)
    ensures
        host_setting(entry).len() > 0,
{
    reveal_strlit("127.0.0.1");
}

/// Applies the settings given (each `None` leaves its field as it was); the
/// caller then writes the configuration back to `config.json`. The host is
/// fixed: an entry naming another host is refused with an error and the
/// configuration is left as it was.
pub fn set_config(
    cfg: &mut AppConfig,
    web_port: Option<u16>,
    web_host: Option<String>,
    auto_start: Option<bool>,
    theme_mode: Option<String>,
    auto_open_devtools: Option<bool>,
) -> (r: Result<(), String>)
    ensures
        !host_accepted(web_host) ==> (r matches Err(m) && m@ == HOST_FIXED@) && *final(cfg)
            == *old(cfg),
        host_accepted(web_host) ==> {
            &&& r is Ok
            &&& final(cfg).web.port == (match web_port {
                Some(p) => p,
                None => old(cfg).web.port,
            })
            &&& final(cfg).web.host@ == (match web_host {
                Some(h) => DEFAULT_HOST@,
                None => old(cfg).web.host@,
            })
            &&& final(cfg).service.auto_start == (match auto_start {
                Some(a) => a,
                None => old(cfg).service.auto_start,
            })
            &&& final(cfg).theme.mode == (match theme_mode {
                Some(m) => theme_mode_named(m@),
                None => old(cfg).theme.mode,
            })
            &&& final(cfg).devtools.auto_open == (match auto_open_devtools {
                Some(d) => d,
                None => old(cfg).devtools.auto_open,
            })
            &&& final(cfg).note == old(cfg).note
            &&& final(cfg).service.start_timeout_secs == old(cfg).service.start_timeout_secs
            &&& final(cfg).autostart == old(cfg).autostart
        },
{
    if let Some(h) = &web_host {
        let v = chars_of(h.as_str());
        let t = trim_ws(&v);
        let h2 = trim_matches(&t, '"');
        if h2.len() != 0 && !same_str(&h2, DEFAULT_HOST) {
            return Err(String::from_str(HOST_FIXED));
        }
        cfg.web.host = String::from_str(DEFAULT_HOST);
    }
    if let Some(p) = web_port {
        cfg.web.port = p;
    }
    if let Some(a) = auto_start {
        cfg.service.auto_start = a;
    }
    if let Some(m) = theme_mode {
        cfg.theme.mode = theme_mode_from(m.as_str());
    }
    if let Some(d) = auto_open_devtools {
        cfg.devtools.auto_open = d;
    }
    Ok(())
}

/// Records the autostart switch once the registry has been changed: a
/// registry failure is returned as it came and leaves the mirror alone.
pub fn set_autostart(cfg: &mut AppConfig, enabled: bool, registry: Result<(), String>) -> (r:
    Result<(), String>)
    ensures
        registry is Err ==> r == registry && *final(cfg) == *old(cfg),
        registry is Ok ==> r is Ok && *final(cfg) == (AppConfig { autostart: enabled, ..*old(cfg) }),
{
    match registry {
        Err(e) => Err(e),
        Ok(()) => {
            cfg.autostart = enabled;
            Ok(())
        },
    }
}

// ---------------------------------------------------------------- registry

/// Arguments of `reg` that query the autostart entry.
pub fn autostart_query_args() -> (r: Vec<String>)
    ensures
        r@.len() == 4,
        r@[0]@ == "query"@,
        r@[1]@ == AUTOSTART_RUN_KEY@,
        r@[2]@ == "/v"@,
        r@[3]@ == AUTOSTART_VALUE@,
{
    let mut r: Vec<String> = Vec::new();
    r.push(String::from_str("query"));
    r.push(String::from_str(AUTOSTART_RUN_KEY));
    r.push(String::from_str("/v"));
    r.push(String::from_str(AUTOSTART_VALUE));
    r
}

/// Arguments of `reg` that write (`enabled`) or delete the autostart entry;
/// the written value is the executable path in double quotes.
pub fn autostart_set_args(enabled: bool, exe: &str) -> (r: Vec<String>)
    ensures
        enabled ==> r@.len() == 9 && r@[0]@ == "add"@ && r@[1]@ == AUTOSTART_RUN_KEY@ && r@[2]@
            == "/v"@ && r@[3]@ == AUTOSTART_VALUE@ && r@[4]@ == "/t"@ && r@[5]@ == "REG_SZ"@
            && r@[6]@ == "/d"@ && r@[7]@ == "\""@ + exe@ + "\""@ && r@[8]@ == "/f"@,
        !enabled ==> r@.len() == 5 && r@[0]@ == "delete"@ && r@[1]@ == AUTOSTART_RUN_KEY@ && r@[2]@
            == "/v"@ && r@[3]@ == AUTOSTART_VALUE@ && r@[4]@ == "/f"@,
{
    let mut r: Vec<String> = Vec::new();
    if enabled {
        r.push(String::from_str("add"));
        r.push(String::from_str(AUTOSTART_RUN_KEY));
        r.push(String::from_str("/v"));
        r.push(String::from_str(AUTOSTART_VALUE));
        r.push(String::from_str("/t"));
        r.push(String::from_str("REG_SZ"));
        r.push(String::from_str("/d"));
        let mut q = chars_of("\"");
        push_str(&mut q, exe);
        push_str(&mut q, "\"");
        r.push(string_of(&q));
        r.push(String::from_str("/f"));
    } else {
        r.push(String::from_str("delete"));
        r.push(String::from_str(AUTOSTART_RUN_KEY));
        r.push(String::from_str("/v"));
        r.push(String::from_str(AUTOSTART_VALUE));
        r.push(String::from_str("/f"));
    }
    r
}

/// Outcome of a `reg` write: success, or the exit code (`-1` when there is
/// none) in the error message.
pub fn autostart_reg_outcome(success: bool, code: Option<i32>) -> (r: Result<(), String>)
    ensures
        success ==> r is Ok,
        !success ==> (r matches Err(m) && m@ == "reg 操作失败（exit "@ + signed_decimal(
            match code {
                Some(c) => c as int,
                None => -1,
            },
        ) + "）"@),
{
    if success {
        Ok(())
    } else {
        let c: i32 = match code {
            Some(c) => c,
            None => -1,
        };
        let mut m = chars_of("reg 操作失败（exit ");
        let d = signed_decimal_exec(c);
        push_all(&mut m, &d);
        push_str(&mut m, "）");
        Err(string_of(&m))
    }
}

/// Arguments of `reg` that query whether apps use the light theme.
pub fn theme_query_args() -> (r: Vec<String>)
    ensures
        r@.len() == 4,
        r@[0]@ == "query"@,
        r@[1]@ == PERSONALIZE_KEY@,
        r@[2]@ == "/v"@,
        r@[3]@ == "AppsUseLightTheme"@,
{
    let mut r: Vec<String> = Vec::new();
    r.push(String::from_str("query"));
    r.push(String::from_str(PERSONALIZE_KEY));
    r.push(String::from_str("/v"));
    r.push(String::from_str("AppsUseLightTheme"));
    r
}

/// The value of `AppsUseLightTheme` in the query's lines: the last word of
/// the first line whose first word is that name.
pub open spec fn light_theme_value(ls: Seq<Seq<char>>) -> Option<Seq<char>>
    decreases ls.len(),
{
    if ls.len() == 0 {
        None
    } else if words(ls[0]).len() > 0 && words(ls[0])[0] == "AppsUseLightTheme"@ {
        Some(words(ls[0]).last())
    } else {
        light_theme_value(ls.drop_first())
    }
}

/// Whether the system uses a dark theme, read from the output of the theme
/// query: dark exactly when `AppsUseLightTheme` reads `0x0`; no output, or
/// no such value, counts as light.
pub open spec fn system_dark_from(output: Option<Seq<char>>) -> bool {
    match output {
        None => false,
        Some(t) => match light_theme_value(lines(t)) {
            Some(w) => w == "0x0"@,
            None => false,
        },
    }
}

/// Dark-theme reading of the theme query's standard output (`None` when the
/// query could not be run).
pub fn system_dark(output: Option<&str>) -> (r: bool)
    ensures
        r == system_dark_from(
            match output {
                Some(t) => Some(t@),
                None => None,
            },
        ),
{
    match output {
        None => false,
        Some(t) => {
            let v = chars_of(t);
            let ls = lines_exec(&v);
            let ghost lv = lines(v@);
            let mut i: usize = 0;
            let mut found: Option<Vec<char>> = None;
            assert(lv.skip(0) == lv);
            while i < ls.len() && found.is_none()
                invariant
                    i <= ls@.len(),
                    ls@.len() == lv.len(),
                    forall|k: int| 0 <= k < ls@.len() ==> #[trigger] ls@[k]@ == lv[k],
                    found is None ==> light_theme_value(lv) == light_theme_value(lv.skip(i as int)),
                    found matches Some(w) ==> light_theme_value(lv) == Some(w@),
                decreases ls.len() - i,
            {
                let ws = words_exec(&ls[i]);
                assert(lv.skip(i as int)[0] == lv[i as int]);
                assert(lv.skip(i as int).drop_first() == lv.skip(i + 1));
                if ws.len() > 0 && same_str(&ws[0], "AppsUseLightTheme") {
                    let w = slice(&ws[ws.len() - 1], 0, ws[ws.len() - 1].len());
                    assert(w@ == ws@[ws@.len() - 1]@);
                    found = Some(w);
                }
                i = i + 1;
            }
            proof {
                if found is None {
                    assert(lv.skip(i as int).len() == 0);
                }
            }
            match found {
                Some(w) => same_str(&w, "0x0"),
                None => false,
            }
        },
    }
}

} // verus!
