//! The main window and the tray icon: which menu entries and clicks show the
//! window or ask to quit, and maximizing.

use vstd::prelude::*;
use crate::text::{concat2, str_eq};

verus! {

/// What a tray menu entry or click asks for.
#[derive(Clone, Copy, Debug, PartialEq, Eq)]
pub enum TrayCommand {
    /// Show, restore and focus the main window.
    ShowWindow,
    /// Show the main window and ask it to confirm quitting.
    ConfirmExit,
    /// Nothing.
    Ignore,
}

/// The command of the tray menu entry with identifier `id`.
pub fn menu_command(id: &str) -> (res: TrayCommand)
    ensures
        res == (if id@ == "show"@ {
            TrayCommand::ShowWindow
        } else if id@ == "quit"@ {
            TrayCommand::ConfirmExit
        } else {
            TrayCommand::Ignore
        }),
{
    if str_eq(id, "show") {
        TrayCommand::ShowWindow
    } else if str_eq(id, "quit") {
        TrayCommand::ConfirmExit
    } else {
        TrayCommand::Ignore
    }
}

/// A click on the tray icon.
#[derive(Clone, Copy, Debug, PartialEq, Eq)]
pub enum TrayClick {
    /// A single click with the given button, with whether the button went up.
    Click { left: bool, released: bool },
    /// A double click with the given button.
    DoubleClick { left: bool },
    /// Anything else (hover, enter, leave, ...).
    Other,
}

/// The command of a click on the tray icon: releasing the left button after a
/// click, or double-clicking it, shows the window.
pub fn click_command(click: TrayClick) -> (res: TrayCommand)
    ensures
        res == (match click {
            TrayClick::Click { left, released } => if left && released {
                TrayCommand::ShowWindow
            } else {
                TrayCommand::Ignore
            },
            TrayClick::DoubleClick { left } => if left {
                TrayCommand::ShowWindow
            } else {
                TrayCommand::Ignore
            },
            TrayClick::Other => TrayCommand::Ignore,
        }),
{
    match click {
        TrayClick::Click { left, released } => if left && released {
            TrayCommand::ShowWindow
        } else {
            TrayCommand::Ignore
        },
        TrayClick::DoubleClick { left } => if left {
            TrayCommand::ShowWindow
        } else {
            TrayCommand::Ignore
        },
        TrayClick::Other => TrayCommand::Ignore,
    }
}

/// Toggling maximization: a maximized window is restored, any other one
/// maximized; the result is whether the window ends up maximized.
pub fn toggle_maximized(is_maximized: bool) -> (res: bool)
    ensures
        res == !is_maximized,
{
    !is_maximized
}

/// The message when a link could not be opened.
pub fn open_url_error(detail: &str) -> (res: String)
    ensures
        res@ == "无法打开链接: "@ + detail@,
{
    concat2("无法打开链接: ", detail)
}

/// The message when the configuration directory could not be opened.
pub fn open_config_dir_error(detail: &str) -> (res: String)
    ensures
        res@ == "打开配置目录失败: "@ + detail@,
{
    concat2("打开配置目录失败: ", detail)
}

} // verus!
