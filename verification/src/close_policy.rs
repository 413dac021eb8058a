//! What closing the main window or choosing a tray menu item does.
use vstd::prelude::*;
use crate::models::CloseButtonBehavior;
use crate::text::str_eq;

verus! {

broadcast use vstd::string::group_string_axioms;

/// Where a request to close the application comes from.
#[derive(Debug, Clone, Copy, PartialEq, Eq, Structural)]
pub enum CloseRequestSource {
    /// The close button of the main window.
    WindowButton,
    /// The quit item of the tray menu.
    TrayQuit,
}

/// What a close request does.
#[derive(Debug, Clone, Copy, PartialEq, Eq, Structural)]
pub enum CloseAction {
    HideToTray,
    ExitApplication,
}

/// The action of a close request from `source` under the close button
/// setting `behavior`: quitting from the tray always exits; the window
/// button hides to the tray or exits as the setting says.
pub open spec fn close_action_of(behavior: CloseButtonBehavior, source: CloseRequestSource) -> CloseAction {
    match source {
        CloseRequestSource::TrayQuit => CloseAction::ExitApplication,
        CloseRequestSource::WindowButton => match behavior {
            CloseButtonBehavior::CloseToTray => CloseAction::HideToTray,
            CloseButtonBehavior::Exit => CloseAction::ExitApplication,
        },
    }
}

pub fn resolve_close_action(behavior: CloseButtonBehavior, source: CloseRequestSource) -> (r:
    CloseAction)
    ensures
        r == close_action_of(behavior, source),
{
    match source {
        CloseRequestSource::TrayQuit => CloseAction::ExitApplication,
        CloseRequestSource::WindowButton => match behavior {
            CloseButtonBehavior::CloseToTray => CloseAction::HideToTray,
            CloseButtonBehavior::Exit => CloseAction::ExitApplication,
        },
    }
}

/// What an item of the tray menu does.
#[derive(Debug, Clone, Copy, PartialEq, Eq, Structural)]
pub enum TrayMenuAction {
    ShowMainWindow,
    StartQueue,
    PauseQueue,
    OpenDownloadDir,
    RequestClose(CloseRequestSource),
    Ignore,
}

/// The action of the tray menu item with id `id`; unknown ids do nothing.
pub open spec fn tray_action_of(id: Seq<char>) -> TrayMenuAction {
    if id == "show-main-window"@ {
        TrayMenuAction::ShowMainWindow
    } else if id == "start-queue"@ {
        TrayMenuAction::StartQueue
    } else if id == "pause-queue"@ {
        TrayMenuAction::PauseQueue
    } else if id == "open-download-dir"@ {
        TrayMenuAction::OpenDownloadDir
    } else if id == "quit"@ {
        TrayMenuAction::RequestClose(CloseRequestSource::TrayQuit)
    } else {
        TrayMenuAction::Ignore
    }
}

pub fn tray_menu_action(id: &str) -> (r: TrayMenuAction)
    ensures
        r == tray_action_of(id@),
{
    if str_eq(id, "show-main-window") {
        TrayMenuAction::ShowMainWindow
    } else if str_eq(id, "start-queue") {
        TrayMenuAction::StartQueue
    } else if str_eq(id, "pause-queue") {
        TrayMenuAction::PauseQueue
    } else if str_eq(id, "open-download-dir") {
        TrayMenuAction::OpenDownloadDir
    } else if str_eq(id, "quit") {
        TrayMenuAction::RequestClose(CloseRequestSource::TrayQuit)
    } else {
        TrayMenuAction::Ignore
    }
}

/// The label of the main window.
pub open spec fn main_window_label() -> Seq<char> {
    "main"@
}

/// Handles a request to close the window labelled `window_label`: for the
/// main window it asks `request_close` to close from the window button and
/// returns `true`, so that the window itself stays open until the request is
/// decided; other windows are left alone and the result is `false`.
pub fn handle_main_window_close_requested<F: FnOnce(CloseRequestSource)>(
    window_label: &str,
    request_close: F,
) -> (r: bool)
    requires
        call_requires(request_close, (CloseRequestSource::WindowButton,)),
    ensures
        r == (window_label@ == main_window_label()),
        r ==> call_ensures(request_close, (CloseRequestSource::WindowButton,), ()),
{
    if !str_eq(window_label, "main") {
        return false;
    }
    request_close(CloseRequestSource::WindowButton);
    true
}

} // verus!
