//! Start-up and the close button: whether the settings window shows, and
//! what closing a window does.
use vstd::prelude::*;

use crate::config::{AppConfig, CloseButtonBehavior};

verus! {

/// The argument the system passes when it starts the assistant at login.
pub open spec fn autostart_arg() -> Seq<char> {
    "--autostart"@
}

#[derive(Debug, Clone, Copy, PartialEq, Eq, Structural)]
pub enum CloseRequestAction {
    Ignore,
    AskUser,
    MinimizeToTray,
    ExitApp,
}

/// The process was started at login: one of its arguments is `--autostart`.
pub fn is_autostart_launch(args: &Vec<String>) -> (r: bool)
    ensures
        r == exists|i: int| 0 <= i < args@.len() && (#[trigger] args@[i])@ == autostart_arg(),
{
    let wanted = crate::text::chars_of("--autostart");
    let mut i: usize = 0;
    while i < args.len()
        invariant
            i <= args@.len(),
            wanted@ == autostart_arg(),
            forall|k: int| 0 <= k < i ==> (#[trigger] args@[k])@ != autostart_arg(),
        decreases args.len() - i,
    {
        let arg = crate::text::chars_of(args[i].as_str());
        if crate::text::chars_eq(&arg, &wanted) {
            return true;
        }
        i = i + 1;
    }
    false
}

/// The settings window shows at start-up unless the user asked to start
/// in the tray.
pub fn should_show_main_window_on_startup(config: &AppConfig) -> (r: bool)
    ensures
        r == !config.start_minimized_to_tray,
{
    !config.start_minimized_to_tray
}

/// Closing the settings window does what the user chose; closing any other
/// window is left to that window.
pub fn close_request_action_for_window(label: &str, behavior: CloseButtonBehavior) -> (r:
    CloseRequestAction)
    ensures
        label@ != "main"@ ==> r == CloseRequestAction::Ignore,
        label@ == "main"@ ==> r == match behavior {
            CloseButtonBehavior::Ask => CloseRequestAction::AskUser,
            CloseButtonBehavior::MinimizeToTray => CloseRequestAction::MinimizeToTray,
            CloseButtonBehavior::ExitApp => CloseRequestAction::ExitApp,
        },
{
    let l = crate::text::chars_of(label);
    let main = crate::text::chars_of("main");
    if !crate::text::chars_eq(&l, &main) {
        return CloseRequestAction::Ignore;
    }
    match behavior {
        CloseButtonBehavior::Ask => CloseRequestAction::AskUser,
        CloseButtonBehavior::MinimizeToTray => CloseRequestAction::MinimizeToTray,
        CloseButtonBehavior::ExitApp => CloseRequestAction::ExitApp,
    }
}

/// Only the settings window hides to the background when closed.
pub fn should_hide_to_background_on_close(label: &str) -> (r: bool)
    ensures
        r == (label@ == "main"@),
{
    close_request_action_for_window(label, CloseButtonBehavior::MinimizeToTray)
        == CloseRequestAction::MinimizeToTray
}

} // verus!
