//! Window and tray behaviour: the tray menu, what its entries and clicks do,
//! and closing the main window to the tray.
use vstd::prelude::*;

verus! {

/// Label of the main window.
pub const MAIN_WINDOW: &'static str = "main";

/// Address of the console page.
pub const CONSOLE_URL: &'static str = "http://tauri.localhost/#/";

/// Address of the settings page.
pub const SETTINGS_URL: &'static str = "http://tauri.localhost/#/settings";

/// Tooltip of the tray icon.
pub const TRAY_TOOLTIP: &'static str = "DSH 桌面端";

/// Fullscreen entry label while the window is not fullscreen.
pub const ENTER_FULLSCREEN: &'static str = "进入全屏";

/// Fullscreen entry label while the window is fullscreen.
pub const EXIT_FULLSCREEN: &'static str = "退出全屏";

/// What a tray menu entry does.
#[derive(PartialEq, Eq, Structural, Clone, Copy, Debug)]
pub enum TrayAction {
    /// Toggle fullscreen of the main window.
    ToggleFullscreen,
    /// Show the main window on the console page.
    ShowConsole,
    /// Show the main window on the settings page.
    ShowSettings,
    /// Mark the application as exiting and exit.
    Quit,
    /// An unknown entry: nothing happens.
    Ignore,
}

/// The action of the entry with this id.
pub open spec fn tray_action_of(id: Seq<char>) -> TrayAction {
    if id == "fullscreen"@ {
        TrayAction::ToggleFullscreen
    } else if id == "back"@ {
        TrayAction::ShowConsole
    } else if id == "settings"@ {
        TrayAction::ShowSettings
    } else if id == "quit"@ {
        TrayAction::Quit
    } else {
        TrayAction::Ignore
    }
}

/// The tray menu from top to bottom: `(id, label)` of each entry.
pub fn tray_menu() -> (r: Vec<(String, String)>)
    ensures
        r@.len() == 4,
        r@[0].0@ == "fullscreen"@ && r@[0].1@ == ENTER_FULLSCREEN@,
        r@[1].0@ == "back"@ && r@[1].1@ == "控制面板"@,
        r@[2].0@ == "settings"@ && r@[2].1@ == "功能设置"@,
        r@[3].0@ == "quit"@ && r@[3].1@ == "退出应用"@,
{
    let mut r: Vec<(String, String)> = Vec::new();
    r.push((String::from_str("fullscreen"), String::from_str(ENTER_FULLSCREEN)));
    r.push((String::from_str("back"), String::from_str("控制面板")));
    r.push((String::from_str("settings"), String::from_str("功能设置")));
    r.push((String::from_str("quit"), String::from_str("退出应用")));
    r
}

/// What the tray menu entry with this id does.
pub fn tray_action(id: &str) -> (r: TrayAction)
    ensures
        r == tray_action_of(id@),
{
    let v = crate::text::chars_of(id);
    if crate::text::same_str(&v, "fullscreen") {
        TrayAction::ToggleFullscreen
    } else if crate::text::same_str(&v, "back") {
        TrayAction::ShowConsole
    } else if crate::text::same_str(&v, "settings") {
        TrayAction::ShowSettings
    } else if crate::text::same_str(&v, "quit") {
        TrayAction::Quit
    } else {
        TrayAction::Ignore
    }
}

/// Every entry of the tray menu has its own action.
pub proof fn lemma_tray_entries_act()
    ensures
        tray_action_of("fullscreen"@) == TrayAction::ToggleFullscreen,
        tray_action_of("back"@) == TrayAction::ShowConsole,
        tray_action_of("settings"@) == TrayAction::ShowSettings,
        tray_action_of("quit"@) == TrayAction::Quit,
{
    reveal_strlit("fullscreen");
    reveal_strlit("back");
    reveal_strlit("settings");
    reveal_strlit("quit");
    assert("back"@ != "fullscreen"@) by {
        assert("back"@.len() != "fullscreen"@.len());
    }
    assert("settings"@ != "fullscreen"@) by {
        assert("settings"@.len() != "fullscreen"@.len());
    }
    assert("settings"@ != "back"@) by {
        assert("settings"@.len() != "back"@.len());
    }
    assert("quit"@ != "fullscreen"@) by {
        assert("quit"@.len() != "fullscreen"@.len());
    }
    assert("quit"@ != "back"@) by {
        assert("quit"@[0] != "back"@[0]);
    }
    assert("quit"@ != "settings"@) by {
        assert("quit"@.len() != "settings"@.len());
    }
}

/// Label of the fullscreen entry for the window's current state.
pub fn fullscreen_menu_label(is_fullscreen: bool) -> (r: String)
    ensures
        is_fullscreen ==> r@ == EXIT_FULLSCREEN@,
        !is_fullscreen ==> r@ == ENTER_FULLSCREEN@,
{
    if is_fullscreen {
        String::from_str(EXIT_FULLSCREEN)
    } else {
        String::from_str(ENTER_FULLSCREEN)
    }
}

/// A click on the tray icon that shows the main window: the left button,
/// when released.
pub fn tray_click_shows(left_button: bool, released: bool) -> (r: bool)
    ensures
        r == (left_button && released),
{
    left_button && released
}

/// Closing the main window hides it to the tray unless the application is
/// exiting; other windows close normally.
pub fn close_to_tray(window_label: &str, exiting: bool) -> (r: bool)
    ensures
        r == (window_label@ == MAIN_WINDOW@ && !exiting),
{
    let v = crate::text::chars_of(window_label);
    crate::text::same_str(&v, MAIN_WINDOW) && !exiting
}

} // verus!
