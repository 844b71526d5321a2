//! Window commands: the mini chat window, focusing the main window, the tray.

use vstd::prelude::*;

use crate::commands::desktop::{dev_or_prod_url, dev_server_url, opt_view};

verus! {

/// The label of the mini chat window.
pub const MINI_CHAT_LABEL: &'static str = "mini-chat";

/// The label of the main window.
pub const MAIN_WINDOW_LABEL: &'static str = "main";

/// What `new_mini_chat_window` does.
#[derive(Debug, PartialEq)]
pub enum MiniChatAction {
    /// Show and focus the mini chat window that is already open.
    FocusExisting,
    /// Open the mini chat window at this URL.
    Open { url: String },
}

/// `new_mini_chat_window`: an open mini chat window is brought forward;
/// otherwise one is opened at the dev server in a debug build and at
/// `mini-chat.html` otherwise.
pub fn new_mini_chat_window(already_open: bool, debug_build: bool, dev_env: Option<String>) -> (r:
    MiniChatAction)
    ensures
        already_open ==> r == MiniChatAction::FocusExisting,
        !already_open ==> (r matches MiniChatAction::Open { url } && url@ == (if debug_build {
            dev_server_url(opt_view(dev_env))
        } else {
            "mini-chat.html"@
        })),
{
    if already_open {
        return MiniChatAction::FocusExisting;
    }
    MiniChatAction::Open { url: dev_or_prod_url(debug_build, dev_env, "mini-chat.html") }
}

/// `set_tray_visible`: the tray is not wired yet; the request succeeds and
/// changes nothing.
pub fn set_tray_visible(visible: bool) -> (r: Result<(), String>)
    ensures
        r is Ok,
{
    Ok(())
}

} // verus!
