use dsh_desktop::shell::{close_to_tray, fullscreen_menu_label, tray_action, tray_click_shows, tray_menu, TrayAction};

#[test]
fn tray_menu_entries_and_actions() {
    let m = tray_menu();
    let ids: Vec<&str> = m.iter().map(|(i, _)| i.as_str()).collect();
    assert_eq!(ids, vec!["fullscreen", "back", "settings", "quit"]);
    assert_eq!(m[0].1, "进入全屏");
    assert_eq!(m[3].1, "退出应用");
    assert_eq!(tray_action("fullscreen"), TrayAction::ToggleFullscreen);
    assert_eq!(tray_action("back"), TrayAction::ShowConsole);
    assert_eq!(tray_action("settings"), TrayAction::ShowSettings);
    assert_eq!(tray_action("quit"), TrayAction::Quit);
    assert_eq!(tray_action("other"), TrayAction::Ignore);
}

#[test]
fn window_behaviour() {
    assert_eq!(fullscreen_menu_label(true), "退出全屏");
    assert_eq!(fullscreen_menu_label(false), "进入全屏");
    assert!(tray_click_shows(true, true));
    assert!(!tray_click_shows(true, false));
    assert!(!tray_click_shows(false, true));
    assert!(close_to_tray("main", false));
    assert!(!close_to_tray("main", true));
    assert!(!close_to_tray("other", false));
}
