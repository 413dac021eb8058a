use m3u8_queue::close_policy::{
    handle_main_window_close_requested, resolve_close_action, tray_menu_action, CloseAction,
    CloseRequestSource, TrayMenuAction,
};
use m3u8_queue::models::CloseButtonBehavior;

#[test]
fn native_window_close_is_wired_as_window_button_source() {
    let mut requested_source = None;

    let handled = handle_main_window_close_requested("main", |source| {
        requested_source = Some(source);
    });

    assert!(handled);
    assert_eq!(requested_source, Some(CloseRequestSource::WindowButton));
}

#[test]
fn non_main_window_close_is_not_handled_by_main_close_wiring() {
    let mut requested_source = None;

    let handled = handle_main_window_close_requested("secondary", |source| {
        requested_source = Some(source);
    });

    assert!(!handled);
    assert_eq!(requested_source, None);
}

#[test]
fn tray_quit_menu_is_wired_as_tray_quit_source() {
    assert_eq!(
        tray_menu_action("quit"),
        TrayMenuAction::RequestClose(CloseRequestSource::TrayQuit)
    );
}

#[test]
fn tray_menu_items_map_to_their_actions() {
    assert_eq!(tray_menu_action("show-main-window"), TrayMenuAction::ShowMainWindow);
    assert_eq!(tray_menu_action("start-queue"), TrayMenuAction::StartQueue);
    assert_eq!(tray_menu_action("pause-queue"), TrayMenuAction::PauseQueue);
    assert_eq!(tray_menu_action("open-download-dir"), TrayMenuAction::OpenDownloadDir);
    assert_eq!(tray_menu_action("unknown"), TrayMenuAction::Ignore);
    assert_eq!(tray_menu_action(""), TrayMenuAction::Ignore);
}

#[test]
fn tray_quit_always_exits_and_window_button_follows_setting() {
    assert_eq!(
        resolve_close_action(CloseButtonBehavior::CloseToTray, CloseRequestSource::TrayQuit),
        CloseAction::ExitApplication
    );
    assert_eq!(
        resolve_close_action(CloseButtonBehavior::Exit, CloseRequestSource::TrayQuit),
        CloseAction::ExitApplication
    );
    assert_eq!(
        resolve_close_action(CloseButtonBehavior::CloseToTray, CloseRequestSource::WindowButton),
        CloseAction::HideToTray
    );
    assert_eq!(
        resolve_close_action(CloseButtonBehavior::Exit, CloseRequestSource::WindowButton),
        CloseAction::ExitApplication
    );
}
